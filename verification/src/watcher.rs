//! The change watcher: bursts of changes to export files are gathered into
//! one refresh.

use crate::exports::is_export_file;
use crate::text::contains_text;
use vstd::prelude::*;

verus! {

/// How long the debounce window stays open after the last change, in seconds.
pub const DEBOUNCE_SECONDS: u64 = 2;

/// Where the watcher stands.
#[derive(Clone, Copy, Debug, PartialEq, Eq, Structural)]
pub enum WatcherState {
    /// Nothing is pending.
    Idle,
    /// An export file changed; the debounce window is open.
    PendingRefresh,
    /// A refresh is running.
    Refreshing,
}

/// What the watcher reacts to.
#[derive(Clone, Copy, Debug, PartialEq, Eq, Structural)]
pub enum WatcherSignal {
    /// A file changed that is an export file.
    ExportChanged,
    /// A file changed that is no export file.
    OtherChanged,
    /// The debounce window closed.
    TimerExpired,
    /// The refresh that was running came to its end, with or without success.
    RefreshCompleted,
}

/// What the watcher asks for.
#[derive(Clone, Copy, Debug, PartialEq, Eq, Structural)]
pub enum WatcherAction {
    /// Nothing.
    Nothing,
    /// Open the debounce window, or open it anew where it is open.
    RestartTimer,
    /// Run the refresh pipeline once.
    RunRefresh,
}

/// What happened in the watched directory or to the watcher's own work.
#[derive(Debug, PartialEq, Eq)]
pub enum WatcherEvent {
    /// The file at this path was made or changed.
    FileChanged(String),
    /// The debounce window closed.
    TimerExpired,
    /// The refresh that was running came to its end.
    RefreshCompleted,
}

/// The watcher's rule. A change to an export file opens the debounce window
/// and, while it is open, opens it anew; when the window closes the refresh
/// runs once; when the refresh ends the watcher is idle again. Everything
/// else changes nothing: a change to another file in any state, and a
/// signal that the state does not wait for.
pub open spec fn watcher_next(state: WatcherState, signal: WatcherSignal) -> (
    WatcherState,
    WatcherAction,
) {
    match (state, signal) {
        (WatcherState::Idle, WatcherSignal::ExportChanged) => (
            WatcherState::PendingRefresh,
            WatcherAction::RestartTimer,
        ),
        (WatcherState::PendingRefresh, WatcherSignal::ExportChanged) => (
            WatcherState::PendingRefresh,
            WatcherAction::RestartTimer,
        ),
        (WatcherState::PendingRefresh, WatcherSignal::TimerExpired) => (
            WatcherState::Refreshing,
            WatcherAction::RunRefresh,
        ),
        (WatcherState::Refreshing, WatcherSignal::RefreshCompleted) => (
            WatcherState::Idle,
            WatcherAction::Nothing,
        ),
        _ => (state, WatcherAction::Nothing),
    }
}

/// Takes the watcher one step.
pub fn watcher_react(state: WatcherState, signal: WatcherSignal) -> (r: (WatcherState, WatcherAction))
    ensures
        r == watcher_next(state, signal),
{
    match state {
        WatcherState::Idle => match signal {
            WatcherSignal::ExportChanged => (
                WatcherState::PendingRefresh,
                WatcherAction::RestartTimer,
            ),
            _ => (state, WatcherAction::Nothing),
        },
        WatcherState::PendingRefresh => match signal {
            WatcherSignal::ExportChanged => (
                WatcherState::PendingRefresh,
                WatcherAction::RestartTimer,
            ),
            WatcherSignal::TimerExpired => (WatcherState::Refreshing, WatcherAction::RunRefresh),
            _ => (state, WatcherAction::Nothing),
        },
        WatcherState::Refreshing => match signal {
            WatcherSignal::RefreshCompleted => (WatcherState::Idle, WatcherAction::Nothing),
            _ => (state, WatcherAction::Nothing),
        },
    }
}

/// The signal for a changed file whose final component was found to be
/// `component`: a change to an export file where the component names one,
/// else a change to another file.
pub open spec fn change_signal(component: Option<Seq<char>>) -> WatcherSignal {
    if crate::exports::export_component(component) {
        WatcherSignal::ExportChanged
    } else {
        WatcherSignal::OtherChanged
    }
}

/// The signal that an event amounts to. A changed file counts as an export
/// file where its final component, as std finds it, is an export name; a
/// path that is a plain name is its own final component.
pub fn signal_of(event: &WatcherEvent) -> (r: WatcherSignal)
    ensures
        match *event {
            WatcherEvent::FileChanged(path) => {
                &&& crate::exports::plain_name(path@) ==> r == change_signal(Some(path@))
                &&& exists|component: Option<Seq<char>>|
                    #[trigger] crate::exports::may_be_final_component(path@, component) && r
                        == change_signal(component)
                &&& r == WatcherSignal::ExportChanged ==> contains_text(path@, "export_"@)
                    && contains_text(path@, ".xls"@)
            },
            WatcherEvent::TimerExpired => r == WatcherSignal::TimerExpired,
            WatcherEvent::RefreshCompleted => r == WatcherSignal::RefreshCompleted,
        },
{
    match event {
        WatcherEvent::FileChanged(path) => {
            let found = is_export_file(path.as_str());
            proof {
                let component = choose|component: Option<Seq<char>>|
                    #[trigger] crate::exports::may_be_final_component(path@, component) && found
                        == crate::exports::export_component(component);
                assert(crate::exports::may_be_final_component(path@, component));
            }
            if found {
                WatcherSignal::ExportChanged
            } else {
                WatcherSignal::OtherChanged
            }
        },
        WatcherEvent::TimerExpired => WatcherSignal::TimerExpired,
        WatcherEvent::RefreshCompleted => WatcherSignal::RefreshCompleted,
    }
}

/// Takes the watcher one step on an event as it comes from outside: the
/// step that the rule gives for the signal that the event amounts to.
pub fn watcher_step(state: WatcherState, event: &WatcherEvent) -> (r: (WatcherState, WatcherAction))
    ensures
        match *event {
            WatcherEvent::FileChanged(path) => {
                &&& crate::exports::plain_name(path@) ==> r == watcher_next(
                    state,
                    change_signal(Some(path@)),
                )
                &&& exists|component: Option<Seq<char>>|
                    #[trigger] crate::exports::may_be_final_component(path@, component) && r
                        == watcher_next(state, change_signal(component))
                &&& (r == watcher_next(state, WatcherSignal::ExportChanged) && contains_text(
                    path@,
                    "export_"@,
                ) && contains_text(path@, ".xls"@)) || r == watcher_next(
                    state,
                    WatcherSignal::OtherChanged,
                )
            },
            WatcherEvent::TimerExpired => r == watcher_next(state, WatcherSignal::TimerExpired),
            WatcherEvent::RefreshCompleted => r == watcher_next(
                state,
                WatcherSignal::RefreshCompleted,
            ),
        },
{
    let signal = signal_of(event);
    proof {
        if event is FileChanged {
            let path = event->FileChanged_0;
            let component = choose|component: Option<Seq<char>>|
                #[trigger] crate::exports::may_be_final_component(path@, component) && signal
                    == change_signal(component);
            assert(crate::exports::may_be_final_component(path@, component));
        }
    }
    watcher_react(state, signal)
}

/// Whether a batch of changed paths holds an export file: whether the final
/// component of one of them, as std finds it, is an export name. A batch of
/// plain names is judged by the names themselves.
pub fn has_export_change(paths: &Vec<String>) -> (r: bool)
    ensures
        (exists|i: int|
            0 <= i < paths@.len() && crate::exports::plain_name(#[trigger] paths@[i]@)
                && crate::exports::export_name(paths@[i]@)) ==> r,
        (forall|i: int| 0 <= i < paths@.len() ==> crate::exports::plain_name(#[trigger] paths@[i]@))
            ==> r == holds_export_name(paths@),
        exists|components: Seq<Option<Seq<char>>>|
            #[trigger] may_be_final_components(paths@, components) && r == holds_export_component(
                components,
            ),
        r ==> exists|i: int|
            0 <= i < paths@.len() && contains_text(#[trigger] paths@[i]@, "export_"@)
                && contains_text(paths@[i]@, ".xls"@),
{
    let mut components: Vec<Option<String>> = Vec::new();
    let mut i: usize = 0;
    while i < paths.len()
        invariant
            i <= paths.len(),
            components@.len() == i,
            forall|k: int|
                0 <= k < i ==> crate::exports::may_be_final_component(
                    paths@[k]@,
                    #[trigger] component_texts(components@)[k],
                ),
        decreases paths.len() - i,
    {
        let component = crate::exports::file_name_of(paths[i].as_str());
        proof {
            let before = component_texts(components@);
            let after = component_texts(components@.push(component));
            assert(after =~= before.push(crate::entry::optional_text(component)));
            assert forall|k: int| 0 <= k < i + 1 implies crate::exports::may_be_final_component(
                paths@[k]@,
                #[trigger] after[k],
            ) by {
                if k < i {
                    assert(after[k] == before[k]);
                }
            }
        }
        components.push(component);
        i += 1;
    }
    let r = any_export_component(&components);
    proof {
        let found = component_texts(components@);
        assert(may_be_final_components(paths@, found));
        if r {
            let at = choose|at: int|
                0 <= at < found.len() && crate::exports::export_component(#[trigger] found[at]);
            crate::exports::lemma_export_component_marks(paths@[at]@, found[at]);
        }
        if exists|k: int|
            0 <= k < paths@.len() && crate::exports::plain_name(#[trigger] paths@[k]@)
                && crate::exports::export_name(paths@[k]@) {
            let k = choose|k: int|
                0 <= k < paths@.len() && crate::exports::plain_name(#[trigger] paths@[k]@)
                    && crate::exports::export_name(paths@[k]@);
            assert(crate::exports::export_component(found[k]));
        }
        if forall|k: int|
            0 <= k < paths@.len() ==> crate::exports::plain_name(#[trigger] paths@[k]@) {
            if holds_export_name(paths@) {
                let k = choose|k: int|
                    0 <= k < paths@.len() && crate::exports::export_name(#[trigger] paths@[k]@);
                assert(crate::exports::export_component(found[k]));
            }
            if r {
                let at = choose|at: int|
                    0 <= at < found.len() && crate::exports::export_component(#[trigger] found[at]);
                assert(crate::exports::plain_name(paths@[at]@));
                assert(crate::exports::export_name(paths@[at]@));
            }
        }
    }
    r
}

/// Whether one of the final components that were found names an export file.
pub fn any_export_component(components: &Vec<Option<String>>) -> (r: bool)
    ensures
        r == holds_export_component(component_texts(components@)),
{
    let mut i: usize = 0;
    while i < components.len()
        invariant
            i <= components.len(),
            forall|k: int|
                0 <= k < i ==> !crate::exports::export_component(
                    #[trigger] component_texts(components@)[k],
                ),
        decreases components.len() - i,
    {
        if crate::exports::is_export_component(&components[i]) {
            assert(crate::exports::export_component(component_texts(components@)[i as int]));
            return true;
        }
        i += 1;
    }
    false
}

/// The final components that were found, each as its characters.
pub open spec fn component_texts(components: Seq<Option<String>>) -> Seq<Option<Seq<char>>> {
    components.map_values(|c: Option<String>| crate::entry::optional_text(c))
}

/// What is known of the final components that std finds in a batch of
/// paths: there is one finding for each path, and each is what std may find
/// in its path.
pub open spec fn may_be_final_components(
    paths: Seq<String>,
    components: Seq<Option<Seq<char>>>,
) -> bool {
    &&& components.len() == paths.len()
    &&& forall|i: int|
        0 <= i < paths.len() ==> crate::exports::may_be_final_component(
            paths[i]@,
            #[trigger] components[i],
        )
}

/// One of the final components names an export file.
pub open spec fn holds_export_component(components: Seq<Option<Seq<char>>>) -> bool {
    exists|i: int|
        0 <= i < components.len() && crate::exports::export_component(#[trigger] components[i])
}

/// One of the paths is, as it stands, an export name.
pub open spec fn holds_export_name(paths: Seq<String>) -> bool {
    exists|i: int| 0 <= i < paths.len() && crate::exports::export_name(#[trigger] paths[i]@)
}

/// Where the watcher stands after a run of signals.
pub open spec fn watcher_run(state: WatcherState, signals: Seq<WatcherSignal>) -> WatcherState
    decreases signals.len(),
{
    if signals.len() == 0 {
        state
    } else {
        watcher_next(watcher_run(state, signals.drop_last()), signals.last()).0
    }
}

/// How many refreshes a run of signals sets off.
pub open spec fn refreshes_run(state: WatcherState, signals: Seq<WatcherSignal>) -> nat
    decreases signals.len(),
{
    if signals.len() == 0 {
        0
    } else {
        let before = refreshes_run(state, signals.drop_last());
        if watcher_next(watcher_run(state, signals.drop_last()), signals.last()).1
            == WatcherAction::RunRefresh {
            before + 1
        } else {
            before
        }
    }
}

/// A change to a file that is no export file changes nothing, whatever the
/// state.
pub proof fn lemma_other_changes_are_ignored(state: WatcherState)
    ensures
        watcher_next(state, WatcherSignal::OtherChanged) == (state, WatcherAction::Nothing),
{
}

/// A refresh is set off by one thing only: the debounce window closing
/// while a refresh is pending.
pub proof fn lemma_refresh_needs_expiry(state: WatcherState, signal: WatcherSignal)
    ensures
        watcher_next(state, signal).1 == WatcherAction::RunRefresh <==> state
            == WatcherState::PendingRefresh && signal == WatcherSignal::TimerExpired,
{
}

/// A burst is gathered: however many changes to export files arrive, with
/// changes to other files among them, the watcher is pending after them and
/// no refresh has run.
pub proof fn lemma_burst_is_pending(signals: Seq<WatcherSignal>)
    requires
        forall|i: int|
            0 <= i < signals.len() ==> #[trigger] signals[i] == WatcherSignal::ExportChanged
                || signals[i] == WatcherSignal::OtherChanged,
    ensures
        refreshes_run(WatcherState::Idle, signals) == 0,
        watcher_run(WatcherState::Idle, signals) == if exists|i: int|
            0 <= i < signals.len() && signals[i] == WatcherSignal::ExportChanged {
            WatcherState::PendingRefresh
        } else {
            WatcherState::Idle
        },
    decreases signals.len(),
{
    if signals.len() > 0 {
        let front = signals.drop_last();
        assert forall|i: int| 0 <= i < front.len() implies #[trigger] front[i]
            == WatcherSignal::ExportChanged || front[i] == WatcherSignal::OtherChanged by {
            assert(front[i] == signals[i]);
        }
        lemma_burst_is_pending(front);
        let last = signals[signals.len() - 1];
        if exists|i: int| 0 <= i < front.len() && front[i] == WatcherSignal::ExportChanged {
            let i = choose|i: int| 0 <= i < front.len() && front[i] == WatcherSignal::ExportChanged;
            assert(signals[i] == WatcherSignal::ExportChanged);
        } else if exists|i: int| 0 <= i < signals.len() && signals[i] == WatcherSignal::ExportChanged {
            let i = choose|i: int|
                0 <= i < signals.len() && signals[i] == WatcherSignal::ExportChanged;
            if i < front.len() {
                assert(front[i] == signals[i]);
            }
        }
    }
}

/// A burst of changes that holds a change to an export file, followed by
/// the debounce window closing, sets off exactly one refresh.
pub proof fn lemma_burst_sets_off_one_refresh(signals: Seq<WatcherSignal>)
    requires
        forall|i: int|
            0 <= i < signals.len() ==> #[trigger] signals[i] == WatcherSignal::ExportChanged
                || signals[i] == WatcherSignal::OtherChanged,
        exists|i: int| 0 <= i < signals.len() && signals[i] == WatcherSignal::ExportChanged,
    ensures
        watcher_run(WatcherState::Idle, signals.push(WatcherSignal::TimerExpired))
            == WatcherState::Refreshing,
        refreshes_run(WatcherState::Idle, signals.push(WatcherSignal::TimerExpired)) == 1,
{
    lemma_burst_is_pending(signals);
    let all = signals.push(WatcherSignal::TimerExpired);
    assert(all.drop_last() =~= signals);
    assert(all.last() == WatcherSignal::TimerExpired);
}

} // verus!
