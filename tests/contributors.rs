use github_handler::contributors::{
    CommitAuthor, CommitEntry, CommitPage, CommitPager, Contributor, ContributorTally, MAX_PAGES,
};

fn by(id: i64, email: Option<&str>) -> CommitEntry {
    CommitEntry {
        author: Some(CommitAuthor {
            id,
            login: format!("user{}", id),
            avatar_url: format!("https://avatars.example/{}", id),
        }),
        email: email.map(|e| e.to_string()),
    }
}

fn anonymous() -> CommitEntry {
    CommitEntry { author: None, email: Some("ghost@example.com".to_string()) }
}

fn sample() -> Vec<CommitEntry> {
    vec![
        by(1, None),
        by(2, Some("two@example.com")),
        anonymous(),
        by(1, Some("one@example.com")),
        by(3, None),
        by(1, None),
        by(2, None),
        by(3, Some("three@example.com")),
        by(1, Some("other@example.com")),
    ]
}

fn run_pages(pages: Vec<Vec<CommitEntry>>) -> Vec<Contributor> {
    let mut tally = ContributorTally::new();
    for p in pages.iter() {
        tally.add_page(p);
    }
    tally.into_ranked()
}

fn split(mut commits: Vec<CommitEntry>, size: usize) -> Vec<Vec<CommitEntry>> {
    let mut pages = Vec::new();
    while !commits.is_empty() {
        let rest = commits.split_off(size.min(commits.len()));
        pages.push(commits);
        commits = rest;
    }
    pages
}

fn summary(r: &[Contributor]) -> Vec<(i64, i32, Option<String>)> {
    r.iter().map(|c| (c.id, c.contributions, c.email.clone())).collect()
}

#[test]
fn counts_commits_per_author() {
    let r = run_pages(vec![sample()]);
    assert_eq!(
        summary(&r),
        vec![
            (1, 4, Some("one@example.com".to_string())),
            (2, 2, Some("two@example.com".to_string())),
            (3, 2, Some("three@example.com".to_string())),
        ]
    );
    assert_eq!(r[0].login, "user1");
    assert_eq!(r[0].avatar_url, "https://avatars.example/1");
}

#[test]
fn counts_do_not_depend_on_page_boundaries() {
    let whole = summary(&run_pages(vec![sample()]));
    for size in 1..=9 {
        assert_eq!(summary(&run_pages(split(sample(), size))), whole);
    }
}

#[test]
fn known_email_is_never_cleared() {
    let r = run_pages(vec![vec![
        by(7, Some("first@example.com")),
        by(7, None),
        by(7, Some("second@example.com")),
    ]]);
    assert_eq!(r.len(), 1);
    assert_eq!(r[0].contributions, 3);
    assert_eq!(r[0].email, Some("first@example.com".to_string()));
}

#[test]
fn email_is_backfilled_from_a_later_commit() {
    let r = run_pages(vec![vec![by(7, None)], vec![by(7, Some("late@example.com"))]]);
    assert_eq!(r[0].email, Some("late@example.com".to_string()));
}

#[test]
fn commits_without_author_are_skipped() {
    let r = run_pages(vec![vec![anonymous(), anonymous()]]);
    assert!(r.is_empty());
}

#[test]
fn output_is_ranked_and_ties_keep_first_sighting_order() {
    let r = run_pages(vec![vec![by(5, None), by(4, None), by(6, None), by(6, None)]]);
    assert_eq!(summary(&r), vec![(6, 2, None), (5, 1, None), (4, 1, None)]);
    for w in r.windows(2) {
        assert!(w[0].contributions >= w[1].contributions);
    }
}

#[test]
fn pager_follows_next_links() {
    let mut pager = CommitPager::new();
    assert_eq!(pager.next_page(), 1);
    assert!(pager.on_page(CommitPage::Loaded { commits: vec![by(1, None)], has_next: true }));
    assert_eq!(pager.next_page(), 2);
    assert!(!pager.on_page(CommitPage::Loaded { commits: vec![by(1, None), by(2, None)], has_next: false }));
    assert!(pager.is_finished());
    assert_eq!(summary(&pager.into_contributors()), vec![(1, 2, None), (2, 1, None)]);
}

#[test]
fn empty_page_stops_even_with_next_link() {
    let mut pager = CommitPager::new();
    assert!(pager.on_page(CommitPage::Loaded { commits: vec![by(1, None)], has_next: true }));
    assert!(!pager.on_page(CommitPage::Loaded { commits: vec![], has_next: true }));
    assert!(pager.is_finished());
    assert_eq!(pager.next_page(), 2);
    assert!(!pager.on_page(CommitPage::Loaded { commits: vec![by(9, None)], has_next: true }));
    assert_eq!(summary(&pager.into_contributors()), vec![(1, 1, None)]);
}

#[test]
fn failures_stop_with_partial_result() {
    for failure in [
        CommitPage::TransportFailed,
        CommitPage::HttpFailed { status: 403 },
        CommitPage::ParseFailed,
    ] {
        let mut pager = CommitPager::new();
        assert!(pager.on_page(CommitPage::Loaded { commits: vec![by(3, None)], has_next: true }));
        assert!(!pager.on_page(failure));
        assert!(pager.is_finished());
        assert_eq!(summary(&pager.into_contributors()), vec![(3, 1, None)]);
    }
}

#[test]
fn page_larger_than_requested_is_counted() {
    let mut pager = CommitPager::new();
    let commits: Vec<CommitEntry> = (0..101).map(|i| by(i, None)).collect();
    assert!(pager.on_page(CommitPage::Loaded { commits, has_next: true }));
    assert_eq!(pager.next_page(), 2);
    assert_eq!(pager.into_contributors().len(), 101);
}

#[test]
fn page_cap_ends_the_walk() {
    let mut pager = CommitPager::new();
    for page in 1..MAX_PAGES {
        assert_eq!(pager.next_page(), page);
        assert!(pager.on_page(CommitPage::Loaded { commits: vec![by(1, None)], has_next: true }));
    }
    assert_eq!(pager.next_page(), MAX_PAGES);
    assert!(!pager.on_page(CommitPage::Loaded { commits: vec![by(1, None)], has_next: true }));
    let r = pager.into_contributors();
    assert_eq!(r[0].contributions, 100);
}
