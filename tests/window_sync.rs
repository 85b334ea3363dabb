use github_handler::window_sync::{
    convert_to_model, search_query, Phase, Program, RepositoryNode, SearchPage, WindowAction,
    WindowEvent, WindowSync,
};

fn node(name: &str) -> RepositoryNode {
    RepositoryNode {
        name: name.to_string(),
        url: format!("https://github.com/o/{}", name),
        created_at: "2015-03-01T00:00:00Z".to_string(),
    }
}

fn start(exhausted_only: bool) -> WindowSync {
    let (sync, first) = WindowSync::new("2015-03-01".to_string(), "2015-03-02".to_string(), exhausted_only);
    assert!(matches!(first, WindowAction::LookUpStatus));
    sync
}

fn names(programs: &[Program]) -> Vec<String> {
    programs.iter().map(|p| p.name.clone()).collect()
}

#[test]
fn query_names_language_and_window() {
    assert_eq!(search_query("2011-01-01", "2011-03-02"), "language:rust created:2011-01-01..2011-03-02");
}

#[test]
fn converted_record_fields() {
    let mut models = Vec::new();
    convert_to_model(node("alpha"), &mut models);
    convert_to_model(node("beta"), &mut models);
    assert_eq!(models.len(), 2);
    let p = &models[0];
    assert_eq!(p.name, "alpha");
    assert_eq!(p.github_url, "https://github.com/o/alpha");
    assert_eq!(p.description, "");
    assert_eq!(p.namespace, "");
    assert_eq!(p.max_version, "");
    assert_eq!(p.mega_url, "");
    assert_eq!(p.doc_url, "");
    assert_eq!(p.program_type, "");
    assert_eq!(p.downloads, 0);
    assert_eq!(p.cratesio, "");
    assert_eq!(models[1].name, "beta");
    assert_ne!(models[0].id, models[1].id);
}

#[test]
fn two_pages_follow_the_cursor() {
    let mut sync = start(false);
    let mut requests: Vec<Option<String>> = Vec::new();
    let mut saved: Vec<String> = Vec::new();
    match sync.step(WindowEvent::StatusLookedUp { sync_result: None }) {
        WindowAction::Request { query, cursor } => {
            assert_eq!(query, "language:rust created:2015-03-01..2015-03-02");
            requests.push(cursor);
        }
        _ => panic!("expected a request"),
    }
    let page1 = SearchPage { nodes: vec![node("a"), node("b")], has_next_page: true, end_cursor: Some("c1".to_string()) };
    match sync.step(WindowEvent::PageLoaded { page: page1 }) {
        WindowAction::SavePrograms { programs } => saved.extend(names(&programs)),
        _ => panic!("expected a save"),
    }
    match sync.step(WindowEvent::ProgramsSaved) {
        WindowAction::Request { cursor, .. } => requests.push(cursor),
        _ => panic!("expected a request"),
    }
    let page2 = SearchPage { nodes: vec![node("c")], has_next_page: false, end_cursor: Some("c2".to_string()) };
    match sync.step(WindowEvent::PageLoaded { page: page2 }) {
        WindowAction::SavePrograms { programs } => saved.extend(names(&programs)),
        _ => panic!("expected a save"),
    }
    match sync.step(WindowEvent::ProgramsSaved) {
        WindowAction::SaveStatus { status } => {
            assert_eq!(status.start_date, "2015-03-01");
            assert_eq!(status.end_date, "2015-03-02");
            assert!(status.sync_result);
        }
        _ => panic!("expected the success record"),
    }
    assert!(matches!(sync.step(WindowEvent::StatusSaved), WindowAction::Finished));
    assert!(sync.is_done());
    assert_eq!(requests, vec![None, Some("c1".to_string())]);
    assert_eq!(saved, vec!["a", "b", "c"]);
}

#[test]
fn recorded_window_makes_no_calls() {
    let mut sync = start(false);
    assert!(matches!(sync.step(WindowEvent::StatusLookedUp { sync_result: Some(true) }), WindowAction::Finished));
    assert!(sync.is_done());
    assert!(matches!(sync.step(WindowEvent::ProgramsSaved), WindowAction::Ignored));
    assert!(matches!(sync.step(WindowEvent::RequestFailed), WindowAction::Ignored));
    assert_eq!(sync.current_phase(), Phase::Done);
}

#[test]
fn unsuccessful_record_is_synced_again() {
    let mut sync = start(false);
    assert!(matches!(
        sync.step(WindowEvent::StatusLookedUp { sync_result: Some(false) }),
        WindowAction::Request { cursor: None, .. }
    ));
}

#[test]
fn failure_is_recorded_as_done_by_default() {
    for failure in [WindowEvent::RequestFailed, WindowEvent::NoData] {
        let mut sync = start(false);
        sync.step(WindowEvent::StatusLookedUp { sync_result: None });
        match sync.step(failure) {
            WindowAction::SaveStatus { status } => assert!(status.sync_result),
            _ => panic!("expected the success record"),
        }
        assert_eq!(sync.current_phase(), Phase::AwaitStatusSaved);
    }
}

#[test]
fn failure_leaves_window_unrecorded_when_only_exhausted_count() {
    let mut sync = start(true);
    sync.step(WindowEvent::StatusLookedUp { sync_result: None });
    assert!(matches!(sync.step(WindowEvent::NoData), WindowAction::Finished));
    assert!(sync.is_done());
}

#[test]
fn out_of_turn_event_is_ignored() {
    let mut sync = start(false);
    assert!(matches!(sync.step(WindowEvent::ProgramsSaved), WindowAction::Ignored));
    assert_eq!(sync.current_phase(), Phase::AwaitStatus);
}
