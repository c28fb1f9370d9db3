use token_stats::{next_step, FsEventKind, LoopStep, WatchSignal};

const NAME: &str = "stats-cache.json";

fn event(kind: FsEventKind, names: &[Option<&str>]) -> WatchSignal {
    WatchSignal::Event {
        kind,
        file_names: names.iter().map(|n| n.map(|s| s.to_string())).collect(),
    }
}

#[test]
fn other_file_does_not_refresh() {
    let e = event(FsEventKind::Modify, &[Some("history.jsonl")]);
    assert_eq!(next_step(&e, NAME), LoopStep::Wait);
    let e = event(FsEventKind::Create, &[Some("stats-cache.json.tmp"), None]);
    assert_eq!(next_step(&e, NAME), LoopStep::Wait);
}

#[test]
fn modify_or_create_of_stats_file_refreshes() {
    let e = event(FsEventKind::Modify, &[Some(NAME)]);
    assert_eq!(next_step(&e, NAME), LoopStep::Refresh);
    let e = event(FsEventKind::Create, &[None, Some("other"), Some(NAME)]);
    assert_eq!(next_step(&e, NAME), LoopStep::Refresh);
}

#[test]
fn removal_or_access_does_not_refresh() {
    for kind in [FsEventKind::Remove, FsEventKind::Access, FsEventKind::Any, FsEventKind::Other] {
        let e = event(kind, &[Some(NAME)]);
        assert_eq!(next_step(&e, NAME), LoopStep::Wait);
    }
}

#[test]
fn event_without_paths_does_not_refresh() {
    let e = event(FsEventKind::Modify, &[]);
    assert_eq!(next_step(&e, NAME), LoopStep::Wait);
}

#[test]
fn timeout_error_and_disconnect() {
    assert_eq!(next_step(&WatchSignal::Timeout, NAME), LoopStep::Refresh);
    assert_eq!(next_step(&WatchSignal::WatchError, NAME), LoopStep::Wait);
    assert_eq!(next_step(&WatchSignal::Disconnected, NAME), LoopStep::Stop);
}
