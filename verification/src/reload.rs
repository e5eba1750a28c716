//! The hot-reload pipeline as a state machine: a change of a configuration
//! file starts a quiet period; when it is over, the tree is loaded anew
//! and, if that succeeds, takes the place of the tree being served.
//!
//! The caller watches the directory, keeps the time and loads the tree; it
//! hands each event to [`step`] and does what the answer says. The answer
//! alone tells the caller what to do: every step that begins a quiet
//! period says how long to wait.
use crate::directory::yaml_name;
use crate::directory::is_yaml_file;
use crate::text::{chars_of, string_of};
use vstd::prelude::*;

verus! {

/// The quiet period after a change, in milliseconds.
pub const DEBOUNCE_MS: u64 = 500;

/// What a file-system notification reports.
#[derive(Debug, Clone, Copy, PartialEq, Eq)]
pub enum WatchKind {
    Create,
    Modify,
    Remove,
    Access,
    Other,
}

/// The state of the pipeline.
#[derive(Debug, Clone, Copy, PartialEq, Eq)]
pub enum ReloadState {
    /// Nothing has changed since the last reload.
    Idle,
    /// A change was seen; the quiet period runs.
    PendingReload,
    /// The tree is being loaded; `queued` tells whether a change was seen
    /// meanwhile.
    Reloading { queued: bool },
}

/// What happens to the pipeline.
#[derive(Debug, Clone, Copy, PartialEq, Eq)]
pub enum ReloadEvent {
    /// A configuration file was created or modified.
    Changed,
    /// The quiet period is over.
    QuietPeriodOver,
    /// The tree was loaded.
    Loaded,
    /// The tree could not be loaded.
    LoadFailed,
}

/// What the caller does next.
#[derive(Debug, Clone, Copy, PartialEq, Eq)]
pub enum ReloadAction {
    /// Nothing.
    Nothing,
    /// Wait for the quiet period, then report `QuietPeriodOver`.
    Wait { millis: u64 },
    /// Drop the notifications that came during the quiet period, load the
    /// tree, and report `Loaded` or `LoadFailed`.
    DrainAndLoad,
    /// Put the loaded tree in the place of the tree being served. Then,
    /// where `wait` holds a time, wait for that quiet period and report
    /// `QuietPeriodOver`.
    Install { wait: Option<u64> },
    /// Keep the tree being served, and drop what was loaded. Then, where
    /// `wait` holds a time, wait for that quiet period and report
    /// `QuietPeriodOver`.
    Discard { wait: Option<u64> },
}

/// The next state of the pipeline and the action that an event asks for.
pub open spec fn next(state: ReloadState, event: ReloadEvent) -> (ReloadState, ReloadAction) {
    match (state, event) {
        (ReloadState::Idle, ReloadEvent::Changed) => (
            ReloadState::PendingReload,
            ReloadAction::Wait { millis: DEBOUNCE_MS },
        ),
        (ReloadState::PendingReload, ReloadEvent::QuietPeriodOver) => (
            ReloadState::Reloading { queued: false },
            ReloadAction::DrainAndLoad,
        ),
        (ReloadState::Reloading { queued }, ReloadEvent::Changed) => (
            ReloadState::Reloading { queued: true },
            ReloadAction::Nothing,
        ),
        (ReloadState::Reloading { queued }, ReloadEvent::Loaded) => (
            after_reload(queued),
            ReloadAction::Install { wait: wait_after_reload(queued) },
        ),
        (ReloadState::Reloading { queued }, ReloadEvent::LoadFailed) => (
            after_reload(queued),
            ReloadAction::Discard { wait: wait_after_reload(queued) },
        ),
        _ => (state, ReloadAction::Nothing),
    }
}

/// Where the pipeline goes after a reload: into a new quiet period where
/// a change was seen meanwhile, else to rest.
pub open spec fn after_reload(queued: bool) -> ReloadState {
    if queued {
        ReloadState::PendingReload
    } else {
        ReloadState::Idle
    }
}

/// The quiet period that follows a reload: one where a change was seen
/// meanwhile, else none.
pub open spec fn wait_after_reload(queued: bool) -> Option<u64> {
    if queued {
        Some(DEBOUNCE_MS)
    } else {
        None
    }
}

/// The time that an action tells the caller to wait before it reports
/// `QuietPeriodOver`, if it tells one.
pub open spec fn wait_of(action: ReloadAction) -> Option<u64> {
    match action {
        ReloadAction::Wait { millis } => Some(millis),
        ReloadAction::Install { wait } => wait,
        ReloadAction::Discard { wait } => wait,
        _ => None,
    }
}

impl ReloadAction {
    /// The time that the action tells the caller to wait before it reports
    /// `QuietPeriodOver`, if it tells one.
    pub fn wait(self) -> (r: Option<u64>)
        ensures
            r == wait_of(self),
    {
        match self {
            ReloadAction::Wait { millis } => Some(millis),
            ReloadAction::Install { wait } => wait,
            ReloadAction::Discard { wait } => wait,
            _ => None,
        }
    }
}

/// The caller is told to wait exactly when a quiet period begins: when a
/// step takes the pipeline into `PendingReload` from another state. A
/// caller that does what the actions say therefore reports the end of
/// every quiet period, and no other.
pub proof fn law_quiet_period_is_timed(state: ReloadState, event: ReloadEvent)
    ensures
        wait_of(next(state, event).1) is Some <==> state != ReloadState::PendingReload && next(
            state,
            event,
        ).0 == ReloadState::PendingReload,
        wait_of(next(state, event).1) matches Some(millis) ==> millis == DEBOUNCE_MS,
{
}

/// The pipeline never loads while it is loading: only the end of a quiet
/// period asks for a load, and a change seen while the tree is loaded is
/// kept for the next round. A failed load never installs a tree.
pub proof fn law_reload_never_overlaps(state: ReloadState, event: ReloadEvent)
    ensures
        next(state, event).1 == ReloadAction::DrainAndLoad ==> state == ReloadState::PendingReload
            && next(state, event).0 == (ReloadState::Reloading { queued: false }),
        state is Reloading ==> next(state, event).1 != ReloadAction::DrainAndLoad,
        state is Reloading && event == ReloadEvent::Changed ==> next(state, event).0 == (
        ReloadState::Reloading { queued: true }),
        next(state, event).1 is Install ==> state is Reloading && event == ReloadEvent::Loaded,
        event == ReloadEvent::LoadFailed ==> !(next(state, event).1 is Install),
        state == ReloadState::PendingReload && event == ReloadEvent::Changed ==> next(
            state,
            event,
        ) == (state, ReloadAction::Nothing),
{
}

/// Takes the pipeline one step: the next state, and what the caller is
/// to do.
pub fn step(state: ReloadState, event: ReloadEvent) -> (r: (ReloadState, ReloadAction))
    ensures
        r == next(state, event),
{
    match state {
        ReloadState::Idle => match event {
            ReloadEvent::Changed => (
                ReloadState::PendingReload,
                ReloadAction::Wait { millis: DEBOUNCE_MS },
            ),
            _ => (state, ReloadAction::Nothing),
        },
        ReloadState::PendingReload => match event {
            ReloadEvent::QuietPeriodOver => (
                ReloadState::Reloading { queued: false },
                ReloadAction::DrainAndLoad,
            ),
            _ => (state, ReloadAction::Nothing),
        },
        ReloadState::Reloading { queued } => {
            let (rest, wait) = if queued {
                (ReloadState::PendingReload, Some(DEBOUNCE_MS))
            } else {
                (ReloadState::Idle, None)
            };
            match event {
                ReloadEvent::Changed => (ReloadState::Reloading { queued: true }, ReloadAction::Nothing),
                ReloadEvent::Loaded => (rest, ReloadAction::Install { wait: wait }),
                ReloadEvent::LoadFailed => (rest, ReloadAction::Discard { wait: wait }),
                ReloadEvent::QuietPeriodOver => (state, ReloadAction::Nothing),
            }
        },
    }
}

/// The index after the last `/` of a path; 0 where it has none.
pub open spec fn name_start(path: Seq<char>) -> int
    decreases path.len(),
{
    if path.len() == 0 {
        0
    } else if path.last() == '/' {
        path.len() as int
    } else {
        name_start(path.drop_last())
    }
}

/// The file name of a path: what follows its last `/`.
pub open spec fn file_name(path: Seq<char>) -> Seq<char> {
    path.subrange(name_start(path), path.len() as int)
}

/// Whether some path of a notification names a configuration file.
pub open spec fn names_yaml(paths: Seq<Seq<char>>) -> bool {
    exists|i: int| 0 <= i < paths.len() && yaml_name(file_name(#[trigger] paths[i]))
}

/// The texts of a list of paths.
pub open spec fn path_views(paths: Seq<String>) -> Seq<Seq<char>> {
    Seq::new(paths.len(), |i: int| paths[i]@)
}

/// Whether a notification triggers a reload: it reports a creation or a
/// modification, and one of its paths names a configuration file.
pub open spec fn triggers(kind: WatchKind, paths: Seq<Seq<char>>) -> bool {
    (kind == WatchKind::Create || kind == WatchKind::Modify) && names_yaml(paths)
}

/// The file name of a path.
pub fn file_name_of(path: &str) -> (r: String)
    ensures
        r@ == file_name(path@),
{
    let chars = chars_of(path);
    let mut i: usize = chars.len();
    assert(chars@.take(i as int) =~= chars@);
    while i > 0 && chars[i - 1] != '/'
        invariant
            i <= chars.len(),
            name_start(chars@) == name_start(chars@.take(i as int)),
        decreases i,
    {
        assert(chars@.take(i as int).drop_last() =~= chars@.take(i as int - 1));
        i -= 1;
    }
    string_of(&chars, i, chars.len())
}

/// Whether a file-system notification triggers a reload.
pub fn is_reload_trigger(kind: WatchKind, paths: &Vec<String>) -> (r: bool)
    ensures
        r == triggers(kind, path_views(paths@)),
{
    match kind {
        WatchKind::Create => {},
        WatchKind::Modify => {},
        _ => {
            return false;
        },
    }
    let mut i: usize = 0;
    while i < paths.len()
        invariant
            i <= paths.len(),
            kind == WatchKind::Create || kind == WatchKind::Modify,
            forall|j: int| 0 <= j < i ==> !yaml_name(file_name(#[trigger] path_views(paths@)[j])),
        decreases paths.len() - i,
    {
        let name = file_name_of(paths[i].as_str());
        if is_yaml_file(name.as_str(), true) {
            assert(yaml_name(file_name(path_views(paths@)[i as int])));
            return true;
        }
        i += 1;
    }
    false
}

} // verus!
