use vstd::prelude::*;

verus! {

/// What a filesystem notification says happened to its paths.
#[derive(Debug, Clone, Copy, PartialEq, Eq, Structural)]
pub enum FsEventKind {
    Any,
    Access,
    Create,
    Modify,
    Remove,
    Other,
}

/// What the watcher loop's timed wait on its event channel returned.
#[derive(Debug, Clone, PartialEq, Eq)]
pub enum WatchSignal {
    /// A notification; `file_names` holds the last path segment of each
    /// affected path (`None` where a path has none, or none in UTF-8).
    Event { kind: FsEventKind, file_names: Vec<Option<String>> },
    /// The watcher reported an error instead of an event.
    WatchError,
    /// No notification arrived within the refresh interval.
    Timeout,
    /// The sending side of the channel is gone.
    Disconnected,
}

/// What the watcher loop does next.
#[derive(Debug, Clone, Copy, PartialEq, Eq, Structural)]
pub enum LoopStep {
    /// Run one refresh cycle, then wait again.
    Refresh,
    /// Wait again without refreshing.
    Wait,
    /// Leave the loop.
    Stop,
}

/// Seconds the watcher loop waits for a notification before it refreshes anyway.
pub const REFRESH_INTERVAL_SECS: u64 = 60;

/// `name` is present and is `file`.
pub open spec fn is_name(name: Option<String>, file: Seq<char>) -> bool {
    match name {
        Some(n) => n@ == file,
        None => false,
    }
}

/// One of `names` is `file`.
pub open spec fn names_file(names: Seq<Option<String>>, file: Seq<char>) -> bool {
    exists|i: int| 0 <= i < names.len() && is_name(#[trigger] names[i], file)
}

/// The kinds of notification that mean the file's content may have changed.
pub open spec fn changes_content(kind: FsEventKind) -> bool {
    kind == FsEventKind::Create || kind == FsEventKind::Modify
}

/// The loop's decision for one signal, watching the file named `file`.
pub open spec fn step_for(signal: WatchSignal, file: Seq<char>) -> LoopStep {
    match signal {
        WatchSignal::Event { kind, file_names } => if names_file(file_names@, file)
            && changes_content(kind) {
            LoopStep::Refresh
        } else {
            LoopStep::Wait
        },
        WatchSignal::WatchError => LoopStep::Wait,
        WatchSignal::Timeout => LoopStep::Refresh,
        WatchSignal::Disconnected => LoopStep::Stop,
    }
}

/// Whether `a` and `b` hold the same characters.
fn same_text(a: &str, b: &str) -> (r: bool)
    ensures
        r == (a@ == b@),
{
    let n = a.unicode_len();
    if n != b.unicode_len() {
        return false;
    }
    let mut i: usize = 0;
    while i < n
        invariant
            n == a@.len(),
            n == b@.len(),
            i <= n,
            forall|j: int| 0 <= j < i ==> a@[j] == b@[j],
        decreases n - i,
    {
        if a.get_char(i) != b.get_char(i) {
            return false;
        }
        i = i + 1;
    }
    assert(a@ =~= b@);
    true
}

/// Whether one of `names` is `file`.
fn any_names_file(names: &Vec<Option<String>>, file: &str) -> (r: bool)
    ensures
        r == names_file(names@, file@),
{
    let mut i: usize = 0;
    while i < names.len()
        invariant
            i <= names@.len(),
            forall|j: int| 0 <= j < i ==> !is_name(#[trigger] names@[j], file@),
        decreases names@.len() - i,
    {
        match &names[i] {
            Some(n) => {
                if same_text(n.as_str(), file) {
                    assert(is_name(names@[i as int], file@));
                    return true;
                }
            },
            None => {},
        }
        i = i + 1;
    }
    false
}

/// What the watcher loop does with `signal`, watching the file named
/// `stats_file_name`: a creation or modification of that file, or a timeout,
/// refreshes; a disconnected channel stops the loop; anything else waits.
pub fn next_step(signal: &WatchSignal, stats_file_name: &str) -> (r: LoopStep)
    ensures
        r == step_for(*signal, stats_file_name@),
{
    match signal {
        WatchSignal::Event { kind, file_names } => {
            let content = match kind {
                FsEventKind::Create | FsEventKind::Modify => true,
                _ => false,
            };
            if content && any_names_file(file_names, stats_file_name) {
                LoopStep::Refresh
            } else {
                LoopStep::Wait
            }
        },
        WatchSignal::WatchError => LoopStep::Wait,
        WatchSignal::Timeout => LoopStep::Refresh,
        WatchSignal::Disconnected => LoopStep::Stop,
    }
}

/// A notification refreshes exactly when it names the stats file and creates
/// or modifies it: one naming another file, or removing the stats file, does not.
pub proof fn lemma_event_refreshes(kind: FsEventKind, names: Vec<Option<String>>, file: Seq<char>)
    ensures
        (step_for(WatchSignal::Event { kind, file_names: names }, file) == LoopStep::Refresh) == (
        names_file(names@, file) && (kind == FsEventKind::Create || kind == FsEventKind::Modify)),
        !names_file(names@, file) ==> step_for(WatchSignal::Event { kind, file_names: names }, file)
            == LoopStep::Wait,
        kind == FsEventKind::Remove ==> step_for(WatchSignal::Event { kind, file_names: names }, file)
            == LoopStep::Wait,
{
}

} // verus!
