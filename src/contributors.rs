use vstd::prelude::*;

verus! {

/// Number of commits requested per page.
pub const PER_PAGE: u32 = 100;

/// Highest page requested: the aggregation covers at most the most recent
/// `MAX_PAGES * PER_PAGE` commits.
pub const MAX_PAGES: u32 = 100;

/// The platform identity attached to a commit.
pub struct CommitAuthor {
    pub id: i64,
    pub login: String,
    pub avatar_url: String,
}

/// One commit of a commit page: its author identity, if the platform knows
/// it, and the email recorded in the commit itself.
pub struct CommitEntry {
    pub author: Option<CommitAuthor>,
    pub email: Option<String>,
}

/// An author with the number of commits attributed to them.
pub struct Contributor {
    pub id: i64,
    pub login: String,
    pub avatar_url: String,
    pub contributions: i32,
    pub email: Option<String>,
}

pub open spec fn opt_view(o: Option<String>) -> Option<Seq<char>> {
    match o {
        Some(s) => Some(s@),
        None => None,
    }
}

/// The commit is attributed to the identity `id`.
pub open spec fn authored_by(c: CommitEntry, id: i64) -> bool {
    c.author matches Some(a) && a.id == id
}

/// Number of commits in `s` attributed to `id`.
pub open spec fn count_of(s: Seq<CommitEntry>, id: i64) -> nat
    decreases s.len(),
{
    if s.len() == 0 {
        0
    } else {
        count_of(s.drop_last(), id) + if authored_by(s.last(), id) {
            1nat
        } else {
            0nat
        }
    }
}

/// The first email that a commit attributed to `id` supplies in `s`.
pub open spec fn email_of(s: Seq<CommitEntry>, id: i64) -> Option<Seq<char>>
    decreases s.len(),
{
    if s.len() == 0 {
        None
    } else {
        let prev = email_of(s.drop_last(), id);
        if prev is Some {
            prev
        } else if authored_by(s.last(), id) {
            opt_view(s.last().email)
        } else {
            None
        }
    }
}

/// The author identity of the first commit attributed to `id` in `s`.
pub open spec fn first_author(s: Seq<CommitEntry>, id: i64) -> Option<CommitAuthor>
    decreases s.len(),
{
    if s.len() == 0 {
        None
    } else {
        let prev = first_author(s.drop_last(), id);
        if prev is Some {
            prev
        } else if authored_by(s.last(), id) {
            s.last().author
        } else {
            None
        }
    }
}

/// Position in `s` of the first commit attributed to `id`, or -1.
pub open spec fn first_index(s: Seq<CommitEntry>, id: i64) -> int
    decreases s.len(),
{
    if s.len() == 0 {
        -1
    } else {
        let prev = first_index(s.drop_last(), id);
        if prev >= 0 {
            prev
        } else if authored_by(s.last(), id) {
            s.len() - 1
        } else {
            -1
        }
    }
}

/// Among equal contribution counts, the author sighted first in `s` comes
/// first.
pub open spec fn ties_by_sighting(r: Seq<Contributor>, s: Seq<CommitEntry>) -> bool {
    forall|i: int, j: int|
        0 <= i < j < r.len() && r[i].contributions == r[j].contributions ==> first_index(s, r[i].id)
            < first_index(s, r[j].id)
}

/// `c` is the aggregate of the commits in `s` for its identity: the identity
/// occurs, login and avatar come from its first sighting, the count is the
/// number of its commits and the email is the first one supplied.
pub open spec fn summarizes(c: Contributor, s: Seq<CommitEntry>) -> bool {
    &&& first_author(s, c.id) matches Some(a) && a.login@ == c.login@ && a.avatar_url@
        == c.avatar_url@
    &&& c.contributions as int == count_of(s, c.id) as int
    &&& opt_view(c.email) == email_of(s, c.id)
}

/// `r` holds exactly one aggregate for each identity that occurs in `s`.
pub open spec fn aggregates(r: Seq<Contributor>, s: Seq<CommitEntry>) -> bool {
    &&& forall|i: int| 0 <= i < r.len() ==> summarizes(#[trigger] r[i], s)
    &&& forall|i: int, j: int| 0 <= i < j < r.len() ==> r[i].id != r[j].id
    &&& forall|id: i64|
        #[trigger] first_author(s, id) is Some ==> exists|i: int| 0 <= i < r.len() && r[i].id == id
}

/// Ordered by descending contribution count.
pub open spec fn ranked(r: Seq<Contributor>) -> bool {
    forall|i: int, j: int| 0 <= i < j < r.len() ==> r[i].contributions >= r[j].contributions
}

proof fn lemma_push_unfold(s: Seq<CommitEntry>, c: CommitEntry)
    ensures
        s.push(c).drop_last() == s,
        s.push(c).last() == c,
{
    assert(s.push(c).drop_last() =~= s);
}

proof fn lemma_unseen(s: Seq<CommitEntry>, id: i64)
    requires
        first_author(s, id) is None,
    ensures
        count_of(s, id) == 0,
        email_of(s, id) is None,
        first_index(s, id) == -1,
    decreases s.len(),
{
    if s.len() > 0 {
        lemma_unseen(s.drop_last(), id);
    }
}

proof fn lemma_count_bound(s: Seq<CommitEntry>, id: i64)
    ensures
        count_of(s, id) <= s.len(),
    decreases s.len(),
{
    if s.len() > 0 {
        lemma_count_bound(s.drop_last(), id);
    }
}

proof fn lemma_count_concat(s: Seq<CommitEntry>, t: Seq<CommitEntry>, id: i64)
    ensures
        count_of(s + t, id) == count_of(s, id) + count_of(t, id),
    decreases t.len(),
{
    if t.len() == 0 {
        assert(s + t =~= s);
    } else {
        assert((s + t).drop_last() =~= s + t.drop_last());
        lemma_count_concat(s, t.drop_last(), id);
    }
}

/// Number of commits attributed to `id`, summed page by page.
pub open spec fn paged_count(pages: Seq<Seq<CommitEntry>>, id: i64) -> nat
    decreases pages.len(),
{
    if pages.len() == 0 {
        0
    } else {
        paged_count(pages.drop_last(), id) + count_of(pages.last(), id)
    }
}

/// Counting commits page by page gives the count over all the commits in
/// order, so two splittings of the same commits into pages give every author
/// the same contribution count.
pub proof fn contributions_ignore_page_boundaries(
    pages: Seq<Seq<CommitEntry>>,
    other: Seq<Seq<CommitEntry>>,
    id: i64,
)
    requires
        pages.flatten() == other.flatten(),
    ensures
        paged_count(pages, id) == count_of(pages.flatten(), id),
        paged_count(pages, id) == paged_count(other, id),
{
    lemma_paged_count(pages, id);
    lemma_paged_count(other, id);
}

proof fn lemma_paged_count(pages: Seq<Seq<CommitEntry>>, id: i64)
    ensures
        paged_count(pages, id) == count_of(pages.flatten(), id),
    decreases pages.len(),
{
    if pages.len() > 0 {
        let init = pages.drop_last();
        assert(pages =~= init.push(pages.last()));
        init.lemma_flatten_push(pages.last());
        lemma_paged_count(init, id);
        lemma_count_concat(init.flatten(), pages.last(), id);
    } else {
        assert(pages.flatten() =~= Seq::<CommitEntry>::empty());
    }
}

/// Once some commit has supplied an email for an author, later commits,
/// with another email or none, leave that email in place.
pub proof fn email_backfill_is_monotonic(s: Seq<CommitEntry>, t: Seq<CommitEntry>, id: i64)
    requires
        email_of(s, id) is Some,
    ensures
        email_of(s + t, id) == email_of(s, id),
    decreases t.len(),
{
    if t.len() == 0 {
        assert(s + t =~= s);
    } else {
        assert((s + t).drop_last() =~= s + t.drop_last());
        email_backfill_is_monotonic(s, t.drop_last(), id);
    }
}

fn clone_opt(o: &Option<String>) -> (r: Option<String>)
    ensures
        r == *o,
{
    match o {
        Some(s) => Some(s.clone()),
        None => None,
    }
}

/// Per-author aggregate of the commits seen so far.
pub struct ContributorTally {
    entries: Vec<Contributor>,
    seen_len: usize,
    seen: Ghost<Seq<CommitEntry>>,
}

impl ContributorTally {
    /// The commits fed to the tally, in order.
    pub closed spec fn seen(&self) -> Seq<CommitEntry> {
        self.seen@
    }

    /// The aggregates held, in order of first sighting.
    pub closed spec fn entries(&self) -> Seq<Contributor> {
        self.entries@
    }

    pub closed spec fn wf(&self) -> bool {
        &&& aggregates(self.entries@, self.seen@)
        &&& self.seen@.len() <= i32::MAX
        &&& self.seen_len == self.seen@.len()
        &&& forall|i: int|
            0 <= i < self.entries@.len() ==> 0 <= #[trigger] first_index(
                self.seen@,
                self.entries@[i].id,
            ) < self.seen@.len()
        &&& forall|i: int, j: int|
            0 <= i < j < self.entries@.len() ==> first_index(self.seen@, self.entries@[i].id)
                < first_index(self.seen@, self.entries@[j].id)
    }

    pub fn new() -> (r: Self)
        ensures
            r.wf(),
            r.seen() == Seq::<CommitEntry>::empty(),
    {
        ContributorTally { entries: Vec::new(), seen_len: 0, seen: Ghost(Seq::empty()) }
    }

    fn find(&self, id: i64) -> (r: Option<usize>)
        ensures
            r matches Some(i) ==> i < self.entries@.len() && self.entries@[i as int].id == id,
            r is None ==> forall|i: int| 0 <= i < self.entries@.len() ==> self.entries@[i].id != id,
    {
        let mut i: usize = 0;
        while i < self.entries.len()
            invariant
                i <= self.entries@.len(),
                forall|k: int| 0 <= k < i ==> self.entries@[k].id != id,
            decreases self.entries@.len() - i,
        {
            if self.entries[i].id == id {
                return Some(i);
            }
            i += 1;
        }
        None
    }

    /// Counts one commit: a new identity gets an entry with count one and
    /// the commit's email; a known one has its count raised by one and its
    /// email filled in only if it had none. A commit without an identity is
    /// skipped.
    pub fn add_commit(&mut self, c: &CommitEntry)
        requires
            old(self).wf(),
            old(self).seen().len() < i32::MAX,
        ensures
            final(self).wf(),
            final(self).seen() == old(self).seen().push(*c),
    {
        let ghost s = self.seen@;
        let ghost s2 = s.push(*c);
        proof {
            lemma_push_unfold(s, *c);
        }
        self.seen_len = self.seen_len + 1;
        match &c.author {
            None => {
                self.seen = Ghost(s2);
                assert forall|id: i64| #[trigger] first_author(s2, id) is Some implies exists|i: int|
                    0 <= i < self.entries@.len() && self.entries@[i].id == id by {
                    assert(first_author(s, id) is Some);
                }
                assert forall|i: int| 0 <= i < self.entries@.len() implies summarizes(
                    #[trigger] self.entries@[i],
                    s2,
                ) by {
                    assert(summarizes(self.entries@[i], s));
                }
            },
            Some(a) => {
                let ghost old_entries = self.entries@;
                match self.find(a.id) {
                    Some(i) => {
                        let e = &self.entries[i];
                        assert(summarizes(*e, s));
                        proof {
                            lemma_count_bound(s, a.id);
                        }
                        let email = if e.email.is_none() {
                            clone_opt(&c.email)
                        } else {
                            clone_opt(&e.email)
                        };
                        let updated = Contributor {
                            id: e.id,
                            login: e.login.clone(),
                            avatar_url: e.avatar_url.clone(),
                            contributions: e.contributions + 1,
                            email,
                        };
                        self.entries.set(i, updated);
                        self.seen = Ghost(s2);
                        assert forall|k: int| 0 <= k < self.entries@.len() implies summarizes(
                            #[trigger] self.entries@[k],
                            s2,
                        ) by {
                            assert(summarizes(old_entries[k], s));
                            if k != i {
                                assert(old_entries[k].id != a.id);
                            }
                        }
                        assert forall|id: i64| #[trigger] first_author(s2, id) is Some implies exists|
                            k: int,
                        | 0 <= k < self.entries@.len() && self.entries@[k].id == id by {
                            if id != a.id {
                                assert(first_author(s, id) is Some);
                                let k = choose|k: int|
                                    0 <= k < old_entries.len() && old_entries[k].id == id;
                                assert(self.entries@[k].id == id);
                            } else {
                                assert(self.entries@[i as int].id == id);
                            }
                        }
                    },
                    None => {
                        assert(first_author(s, a.id) is None);
                        proof {
                            lemma_unseen(s, a.id);
                        }
                        let entry = Contributor {
                            id: a.id,
                            login: a.login.clone(),
                            avatar_url: a.avatar_url.clone(),
                            contributions: 1,
                            email: clone_opt(&c.email),
                        };
                        self.entries.push(entry);
                        self.seen = Ghost(s2);
                        assert forall|k: int| 0 <= k < self.entries@.len() implies summarizes(
                            #[trigger] self.entries@[k],
                            s2,
                        ) by {
                            if k < old_entries.len() {
                                assert(summarizes(old_entries[k], s));
                            }
                        }
                        assert forall|id: i64| #[trigger] first_author(s2, id) is Some implies exists|
                            k: int,
                        | 0 <= k < self.entries@.len() && self.entries@[k].id == id by {
                            if id != a.id {
                                assert(first_author(s, id) is Some);
                                let k = choose|k: int|
                                    0 <= k < old_entries.len() && old_entries[k].id == id;
                                assert(self.entries@[k].id == id);
                            } else {
                                assert(self.entries@[old_entries.len() as int].id == id);
                            }
                        }
                    },
                }
            },
        }
    }

    /// Whether `n` more commits can be counted without overflowing a count.
    pub fn can_count(&self, n: usize) -> (r: bool)
        requires
            self.wf(),
        ensures
            r == (self.seen().len() + n <= i32::MAX),
    {
        n <= i32::MAX as usize - self.seen_len
    }

    /// Feeds every commit of one page, in order.
    pub fn add_page(&mut self, page: &Vec<CommitEntry>)
        requires
            old(self).wf(),
            old(self).seen().len() + page@.len() <= i32::MAX,
        ensures
            final(self).wf(),
            final(self).seen() == old(self).seen() + page@,
    {
        let ghost start = self.seen();
        let mut i: usize = 0;
        while i < page.len()
            invariant
                self.wf(),
                i <= page@.len(),
                start.len() + page@.len() <= i32::MAX,
                self.seen() == start + page@.subrange(0, i as int),
            decreases page@.len() - i,
        {
            self.add_commit(&page[i]);
            proof {
                assert(page@.subrange(0, i + 1) =~= page@.subrange(0, i as int).push(page@[i as int]));
            }
            i += 1;
        }
        proof {
            assert(page@.subrange(0, i as int) =~= page@);
        }
    }

    /// The aggregates ordered by descending contribution count; among equal
    /// counts, the author sighted first comes first.
    #[verifier::rlimit(60)]
    pub fn into_ranked(self) -> (r: Vec<Contributor>)
        requires
            self.wf(),
        ensures
            aggregates(r@, self.seen()),
            ranked(r@),
            ties_by_sighting(r@, self.seen()),
    {
        let ghost all = self.entries@;
        let ghost s = self.seen@;
        assert forall|i: int, j: int|
            0 <= i < j < all.len() implies first_index(s, all[i].id) < first_index(
            s,
            all[j].id,
        ) by {}
        let mut rest = self.entries;
        let mut r: Vec<Contributor> = Vec::new();
        while rest.len() > 0
            invariant
                aggregates(all, s),
                rest@.len() <= all.len(),
                rest@ == all.subrange(0, rest@.len() as int),
                ranked(r@),
                forall|j: int| rest@.len() <= j < all.len() ==> r@.contains(#[trigger] all[j]),
                forall|k: int|
                    0 <= k < r@.len() ==> exists|j: int|
                        rest@.len() <= j < all.len() && #[trigger] r@[k] == all[j],
                forall|k1: int, k2: int| 0 <= k1 < k2 < r@.len() ==> r@[k1].id != r@[k2].id,
                forall|i: int, j: int|
                    0 <= i < j < all.len() ==> first_index(s, all[i].id) < first_index(s, all[j].id),
                ties_by_sighting(r@, s),
            decreases rest@.len(),
        {
            let ghost n = rest@.len() - 1;
            let ghost r0 = r@;
            let x = rest.pop().unwrap();
            assert(x == all[n]);
            let mut p: usize = 0;
            while p < r.len() && r[p].contributions > x.contributions
                invariant
                    p <= r@.len(),
                    forall|k: int| 0 <= k < p ==> r@[k].contributions > x.contributions,
                decreases r@.len() - p,
            {
                p += 1;
            }
            let ghost xg = x;
            r.insert(p, x);
            proof {
                assert(rest@ =~= all.subrange(0, n));
                assert forall|k: int| 0 <= k < r0.len() implies r0[k].id != xg.id && first_index(
                    s,
                    xg.id,
                ) < first_index(s, r0[k].id) by {
                    let j = choose|j: int| n + 1 <= j < all.len() && r0[k] == all[j];
                }
                assert forall|k1: int, k2: int|
                    0 <= k1 < k2 < r@.len() && r@[k1].contributions
                        == r@[k2].contributions implies first_index(s, r@[k1].id) < first_index(
                    s,
                    r@[k2].id,
                ) by {
                    if k1 > p {
                        assert(r@[k1] == r0[k1 - 1] && r@[k2] == r0[k2 - 1]);
                    } else if k1 == p {
                        assert(r@[k2] == r0[k2 - 1]);
                    } else if k2 > p {
                        assert(r@[k1] == r0[k1] && r@[k2] == r0[k2 - 1]);
                    } else if k2 < p {
                        assert(r@[k1] == r0[k1] && r@[k2] == r0[k2]);
                    }
                }
                assert forall|k: int| 0 <= k < r@.len() implies exists|j: int|
                    n <= j < all.len() && #[trigger] r@[k] == all[j] by {
                    if k > p {
                        assert(r@[k] == r0[k - 1]);
                        let j = choose|j: int| n + 1 <= j < all.len() && r0[k - 1] == all[j];
                    } else if k < p {
                        assert(r@[k] == r0[k]);
                        let j = choose|j: int| n + 1 <= j < all.len() && r0[k] == all[j];
                    }
                }
                assert forall|j: int| n <= j < all.len() implies r@.contains(#[trigger] all[j]) by {
                    if j == n {
                        assert(r@[p as int] == all[j]);
                    } else {
                        assert(r0.contains(all[j]));
                        let k = choose|k: int| 0 <= k < r0.len() && r0[k] == all[j];
                        if k < p {
                            assert(r@[k] == all[j]);
                        } else {
                            assert(r@[k + 1] == all[j]);
                        }
                    }
                }
                assert forall|k1: int, k2: int| 0 <= k1 < k2 < r@.len() implies r@[k1].contributions
                    >= r@[k2].contributions by {
                    if p < r0.len() {
                        assert(r0[p as int].contributions <= xg.contributions);
                    }
                }
            }
        }
        proof {
            assert forall|i: int| 0 <= i < r@.len() implies summarizes(#[trigger] r@[i], s) by {
                let j = choose|j: int| 0 <= j < all.len() && r@[i] == all[j];
            }
            assert forall|id: i64| #[trigger] first_author(s, id) is Some implies exists|i: int|
                0 <= i < r@.len() && r@[i].id == id by {
                let j = choose|j: int| 0 <= j < all.len() && all[j].id == id;
                assert(r@.contains(all[j]));
            }
        }
        r
    }
}

/// What came of one commit-page request.
pub enum CommitPage {
    /// The request did not reach the platform or got no response.
    TransportFailed,
    /// The platform answered with a status outside the success range.
    HttpFailed { status: u16 },
    /// The body could not be read as a list of commits.
    ParseFailed,
    /// The commits of the page, and whether the `link` header announced a
    /// next page.
    Loaded { commits: Vec<CommitEntry>, has_next: bool },
}

/// Whether the commits of `o` can still be counted after `seen_len` others:
/// a loaded page with at least one commit, whose counts stay within `i32`.
pub open spec fn countable(o: CommitPage, seen_len: nat) -> bool {
    o matches CommitPage::Loaded { commits, .. } && 0 < commits@.len() && seen_len + commits@.len()
        <= i32::MAX
}

/// The commits that outcome `o` contributes after `seen_len` others.
pub open spec fn absorbed(o: CommitPage, seen_len: nat) -> Seq<CommitEntry> {
    match o {
        CommitPage::Loaded { commits, .. } => if countable(o, seen_len) {
            commits@
        } else {
            Seq::empty()
        },
        _ => Seq::empty(),
    }
}

/// Whether pagination goes on after outcome `o` on page `page`, with
/// `seen_len` commits counted before: only after a counted page that
/// announces a next one, below the page cap.
pub open spec fn goes_on(o: CommitPage, page: u32, seen_len: nat) -> bool {
    &&& countable(o, seen_len)
    &&& o matches CommitPage::Loaded { has_next, .. } && has_next
    &&& page < MAX_PAGES
}

/// Walks a repository's commit history page by page, aggregating authors.
/// A failed request, an unreadable or empty page, the absence of a next
/// page, or the page cap ends the walk; so does a page whose commits would
/// push the total past what an `i32` count holds.
pub struct CommitPager {
    tally: ContributorTally,
    page: u32,
    finished: bool,
}

impl CommitPager {
    /// Commits aggregated so far.
    pub closed spec fn seen(&self) -> Seq<CommitEntry> {
        self.tally.seen()
    }

    /// The page to request next (numbered from one).
    pub closed spec fn page(&self) -> u32 {
        self.page
    }

    pub closed spec fn finished(&self) -> bool {
        self.finished
    }

    pub closed spec fn wf(&self) -> bool {
        &&& self.tally.wf()
        &&& 1 <= self.page <= MAX_PAGES
    }

    pub fn new() -> (r: Self)
        ensures
            r.wf(),
            r.page() == 1,
            !r.finished(),
            r.seen() == Seq::<CommitEntry>::empty(),
    {
        CommitPager { tally: ContributorTally::new(), page: 1, finished: false }
    }

    /// The page number to request next.
    pub fn next_page(&self) -> (r: u32)
        ensures
            r == self.page(),
    {
        self.page
    }

    /// Whether the walk is over.
    pub fn is_finished(&self) -> (r: bool)
        ensures
            r == self.finished(),
    {
        self.finished
    }

    /// Takes the outcome of requesting `next_page()` and says whether to
    /// request another page. Once finished, outcomes are ignored.
    pub fn on_page(&mut self, outcome: CommitPage) -> (more: bool)
        requires
            old(self).wf(),
        ensures
            final(self).wf(),
            more == (!old(self).finished() && goes_on(
                outcome,
                old(self).page(),
                old(self).seen().len(),
            )),
            final(self).finished() == !more,
            final(self).page() == if more {
                old(self).page() + 1
            } else {
                old(self).page() as int
            },
            final(self).seen() == if old(self).finished() {
                old(self).seen()
            } else {
                old(self).seen() + absorbed(outcome, old(self).seen().len())
            },
    {
        if self.finished {
            return false;
        }
        match outcome {
            CommitPage::Loaded { commits, has_next } => {
                let ghost seen_len = self.tally.seen().len();
                if commits.len() == 0 || !self.tally.can_count(commits.len()) {
                    self.finished = true;
                    proof {
                        assert(self.tally.seen() =~= self.tally.seen() + absorbed(outcome, seen_len));
                    }
                    return false;
                }
                self.tally.add_page(&commits);
                let more = has_next && self.page < MAX_PAGES;
                if more {
                    self.page = self.page + 1;
                } else {
                    self.finished = true;
                }
                more
            },
            _ => {
                self.finished = true;
                proof {
                    assert(self.tally.seen() =~= self.tally.seen() + absorbed(
                        outcome,
                        self.tally.seen().len(),
                    ));
                }
                false
            },
        }
    }

    /// The contributors found, ordered by descending contribution count.
    pub fn into_contributors(self) -> (r: Vec<Contributor>)
        requires
            self.wf(),
        ensures
            aggregates(r@, self.seen()),
            ranked(r@),
            ties_by_sighting(r@, self.seen()),
    {
        self.tally.into_ranked()
    }
}

} // verus!
