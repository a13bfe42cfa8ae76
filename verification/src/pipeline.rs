//! The refresh pipeline as a machine. It is started once, names the work to
//! do next, and is then told what that work brought until it names an end.

use crate::entry::{clone_entries, views, EntryView, HomeworkEntry};
use crate::exports::{select_exports, selected_exports, texts};
use crate::refresh::{
    outcome_views, process_all_exports, refreshed, RefreshError, RefreshErrorView,
};
use vstd::prelude::*;

verus! {

/// Where a refresh stands.
pub enum RefreshState {
    /// The store is being read.
    LoadingStore,
    /// The export directory is being listed.
    ListingExports { existing: Vec<HomeworkEntry> },
    /// The export files are being parsed, in order; the file at work is the
    /// one after those that have an outcome.
    ParsingExports {
        existing: Vec<HomeworkEntry>,
        files: Vec<String>,
        outcomes: Vec<Option<Vec<HomeworkEntry>>>,
    },
    /// The merged set is being stored.
    SavingStore { merged: Vec<HomeworkEntry> },
    /// The refresh has ended.
    Finished,
}

/// What the work that the machine asked for brought.
pub enum RefreshEvent {
    /// There is no store.
    StoreMissing,
    /// The store held these records.
    StoreLoaded(Vec<HomeworkEntry>),
    /// The store's content is malformed.
    StoreMalformed(String),
    /// The store is there and could not be read.
    StoreUnreadable(String),
    /// The export directory holds files of these names; none where there is
    /// no such directory.
    ExportsListed(Vec<String>),
    /// The file at work held these records.
    FileParsed(Vec<HomeworkEntry>),
    /// The file at work could not be parsed.
    FileFailed(String),
    /// The merged set is stored.
    StoreSaved,
    /// The merged set could not be stored.
    SaveFailed(String),
}

/// What to do next.
pub enum RefreshAction {
    /// Nothing: the event was not awaited.
    Wait,
    /// Read the store.
    LoadStore,
    /// List the export directory.
    ListExports,
    /// Parse the export file of this name.
    ParseFile(String),
    /// Store these records.
    SaveStore(Vec<HomeworkEntry>),
    /// The refresh is done; these records are the new authoritative set.
    Succeed(Vec<HomeworkEntry>),
    /// The refresh failed; what was served before stands.
    Fail(RefreshError),
}

/// A state of the machine over views.
pub enum RefreshStateView {
    LoadingStore,
    ListingExports { existing: Seq<EntryView> },
    ParsingExports {
        existing: Seq<EntryView>,
        files: Seq<Seq<char>>,
        outcomes: Seq<Option<Seq<EntryView>>>,
    },
    SavingStore { merged: Seq<EntryView> },
    Finished,
}

/// An event over views.
pub enum RefreshEventView {
    StoreMissing,
    StoreLoaded(Seq<EntryView>),
    StoreMalformed(Seq<char>),
    StoreUnreadable(Seq<char>),
    ExportsListed(Seq<Seq<char>>),
    FileParsed(Seq<EntryView>),
    FileFailed(Seq<char>),
    StoreSaved,
    SaveFailed(Seq<char>),
}

/// An action over views.
pub enum RefreshActionView {
    Wait,
    LoadStore,
    ListExports,
    ParseFile(Seq<char>),
    SaveStore(Seq<EntryView>),
    Succeed(Seq<EntryView>),
    Fail(RefreshErrorView),
}

impl View for RefreshState {
    type V = RefreshStateView;

    open spec fn view(&self) -> RefreshStateView {
        match *self {
            RefreshState::LoadingStore => RefreshStateView::LoadingStore,
            RefreshState::ListingExports { existing } => RefreshStateView::ListingExports {
                existing: views(existing@),
            },
            RefreshState::ParsingExports { existing, files, outcomes } => {
                RefreshStateView::ParsingExports {
                    existing: views(existing@),
                    files: texts(files@),
                    outcomes: outcome_views(outcomes@),
                }
            },
            RefreshState::SavingStore { merged } => RefreshStateView::SavingStore {
                merged: views(merged@),
            },
            RefreshState::Finished => RefreshStateView::Finished,
        }
    }
}

impl View for RefreshEvent {
    type V = RefreshEventView;

    open spec fn view(&self) -> RefreshEventView {
        match *self {
            RefreshEvent::StoreMissing => RefreshEventView::StoreMissing,
            RefreshEvent::StoreLoaded(records) => RefreshEventView::StoreLoaded(views(records@)),
            RefreshEvent::StoreMalformed(message) => RefreshEventView::StoreMalformed(message@),
            RefreshEvent::StoreUnreadable(message) => RefreshEventView::StoreUnreadable(message@),
            RefreshEvent::ExportsListed(names) => RefreshEventView::ExportsListed(texts(names@)),
            RefreshEvent::FileParsed(records) => RefreshEventView::FileParsed(views(records@)),
            RefreshEvent::FileFailed(message) => RefreshEventView::FileFailed(message@),
            RefreshEvent::StoreSaved => RefreshEventView::StoreSaved,
            RefreshEvent::SaveFailed(message) => RefreshEventView::SaveFailed(message@),
        }
    }
}

impl View for RefreshAction {
    type V = RefreshActionView;

    open spec fn view(&self) -> RefreshActionView {
        match *self {
            RefreshAction::Wait => RefreshActionView::Wait,
            RefreshAction::LoadStore => RefreshActionView::LoadStore,
            RefreshAction::ListExports => RefreshActionView::ListExports,
            RefreshAction::ParseFile(name) => RefreshActionView::ParseFile(name@),
            RefreshAction::SaveStore(records) => RefreshActionView::SaveStore(views(records@)),
            RefreshAction::Succeed(records) => RefreshActionView::Succeed(views(records@)),
            RefreshAction::Fail(e) => RefreshActionView::Fail(e@),
        }
    }
}

/// How a refresh ends that got no further than its result: with success
/// where there is one, else with the error.
pub open spec fn finish_with(result: Result<Seq<EntryView>, RefreshErrorView>) -> (
    RefreshStateView,
    RefreshActionView,
) {
    match result {
        Ok(entries) => (RefreshStateView::Finished, RefreshActionView::Succeed(entries)),
        Err(e) => (RefreshStateView::Finished, RefreshActionView::Fail(e)),
    }
}

/// How a refresh goes on once the files have the given outcomes: with the
/// next file while one is left, else with storing the merged set.
pub open spec fn after_outcome(
    existing: Seq<EntryView>,
    files: Seq<Seq<char>>,
    outcomes: Seq<Option<Seq<EntryView>>>,
) -> (RefreshStateView, RefreshActionView) {
    if outcomes.len() < files.len() {
        (
            RefreshStateView::ParsingExports { existing, files, outcomes },
            RefreshActionView::ParseFile(files[outcomes.len() as int]),
        )
    } else {
        match refreshed(existing, outcomes) {
            Ok(entries) => (
                RefreshStateView::SavingStore { merged: entries },
                RefreshActionView::SaveStore(entries),
            ),
            Err(e) => (RefreshStateView::Finished, RefreshActionView::Fail(e)),
        }
    }
}

/// How a refresh goes on once the export directory is listed: without any
/// export file it ends at once, with what is stored or with no data; else
/// the files are parsed in lexicographic order.
pub open spec fn after_listing(existing: Seq<EntryView>, names: Seq<Seq<char>>) -> (
    RefreshStateView,
    RefreshActionView,
) {
    let files = selected_exports(names);
    if files.len() == 0 {
        finish_with(refreshed(existing, Seq::empty()))
    } else {
        after_outcome(existing, files, Seq::empty())
    }
}

/// The machine's rule: the state and the action that follow a state and an
/// event. An event that the state does not wait for changes nothing.
pub open spec fn refresh_next(state: RefreshStateView, event: RefreshEventView) -> (
    RefreshStateView,
    RefreshActionView,
) {
    match state {
        RefreshStateView::LoadingStore => match event {
            RefreshEventView::StoreMissing => (
                RefreshStateView::ListingExports { existing: Seq::empty() },
                RefreshActionView::ListExports,
            ),
            RefreshEventView::StoreLoaded(records) => (
                RefreshStateView::ListingExports { existing: records },
                RefreshActionView::ListExports,
            ),
            RefreshEventView::StoreMalformed(message) => (
                RefreshStateView::Finished,
                RefreshActionView::Fail(RefreshErrorView::ParseError(message)),
            ),
            RefreshEventView::StoreUnreadable(message) => (
                RefreshStateView::Finished,
                RefreshActionView::Fail(RefreshErrorView::PersistenceError(message)),
            ),
            _ => (state, RefreshActionView::Wait),
        },
        RefreshStateView::ListingExports { existing } => match event {
            RefreshEventView::ExportsListed(names) => after_listing(existing, names),
            _ => (state, RefreshActionView::Wait),
        },
        RefreshStateView::ParsingExports { existing, files, outcomes } => match event {
            RefreshEventView::FileParsed(records) => after_outcome(
                existing,
                files,
                outcomes.push(Some(records)),
            ),
            RefreshEventView::FileFailed(_) => after_outcome(existing, files, outcomes.push(None)),
            _ => (state, RefreshActionView::Wait),
        },
        RefreshStateView::SavingStore { merged } => match event {
            RefreshEventView::StoreSaved => (
                RefreshStateView::Finished,
                RefreshActionView::Succeed(merged),
            ),
            RefreshEventView::SaveFailed(message) => (
                RefreshStateView::Finished,
                RefreshActionView::Fail(RefreshErrorView::PersistenceError(message)),
            ),
            _ => (state, RefreshActionView::Wait),
        },
        RefreshStateView::Finished => (state, RefreshActionView::Wait),
    }
}

/// Starts a refresh: the store is to be read first.
pub fn refresh_start() -> (r: (RefreshState, RefreshAction))
    ensures
        r.0@ == RefreshStateView::LoadingStore,
        r.1@ == RefreshActionView::LoadStore,
{
    (RefreshState::LoadingStore, RefreshAction::LoadStore)
}

fn finish(result: Result<Vec<HomeworkEntry>, RefreshError>) -> (r: (RefreshState, RefreshAction))
    ensures
        (r.0@, r.1@) == finish_with(crate::refresh::result_view(result)),
{
    match result {
        Ok(entries) => (RefreshState::Finished, RefreshAction::Succeed(entries)),
        Err(e) => (RefreshState::Finished, RefreshAction::Fail(e)),
    }
}

fn go_on(
    existing: Vec<HomeworkEntry>,
    files: Vec<String>,
    outcomes: Vec<Option<Vec<HomeworkEntry>>>,
) -> (r: (RefreshState, RefreshAction))
    ensures
        (r.0@, r.1@) == after_outcome(views(existing@), texts(files@), outcome_views(outcomes@)),
{
    if outcomes.len() < files.len() {
        let name = files[outcomes.len()].clone();
        (RefreshState::ParsingExports { existing, files, outcomes }, RefreshAction::ParseFile(name))
    } else {
        match process_all_exports(existing, outcomes) {
            Ok(entries) => {
                let copy = clone_entries(&entries);
                (RefreshState::SavingStore { merged: entries }, RefreshAction::SaveStore(copy))
            },
            Err(e) => (RefreshState::Finished, RefreshAction::Fail(e)),
        }
    }
}

/// Takes the machine one step: from a state and what the last action
/// brought to the next state and the next action.
pub fn refresh_step(state: RefreshState, event: RefreshEvent) -> (r: (RefreshState, RefreshAction))
    ensures
        (r.0@, r.1@) == refresh_next(state@, event@),
{
    match state {
        RefreshState::LoadingStore => match event {
            RefreshEvent::StoreMissing => {
                let existing: Vec<HomeworkEntry> = Vec::new();
                assert(views(existing@) =~= Seq::<EntryView>::empty());
                (RefreshState::ListingExports { existing }, RefreshAction::ListExports)
            },
            RefreshEvent::StoreLoaded(records) => (
                RefreshState::ListingExports { existing: records },
                RefreshAction::ListExports,
            ),
            RefreshEvent::StoreMalformed(message) => (
                RefreshState::Finished,
                RefreshAction::Fail(RefreshError::ParseError(message)),
            ),
            RefreshEvent::StoreUnreadable(message) => (
                RefreshState::Finished,
                RefreshAction::Fail(RefreshError::PersistenceError(message)),
            ),
            _ => (RefreshState::LoadingStore, RefreshAction::Wait),
        },
        RefreshState::ListingExports { existing } => match event {
            RefreshEvent::ExportsListed(names) => {
                let files = select_exports(names);
                let outcomes: Vec<Option<Vec<HomeworkEntry>>> = Vec::new();
                assert(outcome_views(outcomes@) =~= Seq::<Option<Seq<EntryView>>>::empty());
                if files.len() == 0 {
                    finish(process_all_exports(existing, outcomes))
                } else {
                    go_on(existing, files, outcomes)
                }
            },
            _ => (RefreshState::ListingExports { existing }, RefreshAction::Wait),
        },
        RefreshState::ParsingExports { existing, files, outcomes } => match event {
            RefreshEvent::FileParsed(records) => {
                let mut outcomes = outcomes;
                let ghost before = outcomes@;
                let ghost added = Some(records);
                outcomes.push(Some(records));
                assert(outcome_views(before.push(added)) =~= outcome_views(before).push(
                    crate::refresh::outcome_view(added),
                ));
                go_on(existing, files, outcomes)
            },
            RefreshEvent::FileFailed(_) => {
                let mut outcomes = outcomes;
                let ghost before = outcomes@;
                outcomes.push(None);
                assert(outcome_views(before.push(None)) =~= outcome_views(before).push(None));
                go_on(existing, files, outcomes)
            },
            _ => (RefreshState::ParsingExports { existing, files, outcomes }, RefreshAction::Wait),
        },
        RefreshState::SavingStore { merged } => match event {
            RefreshEvent::StoreSaved => (RefreshState::Finished, RefreshAction::Succeed(merged)),
            RefreshEvent::SaveFailed(message) => (
                RefreshState::Finished,
                RefreshAction::Fail(RefreshError::PersistenceError(message)),
            ),
            _ => (RefreshState::SavingStore { merged }, RefreshAction::Wait),
        },
        RefreshState::Finished => (RefreshState::Finished, RefreshAction::Wait),
    }
}

/// Where the machine stands, and what it asked for last, after a run of
/// events.
pub open spec fn refresh_run(state: RefreshStateView, events: Seq<RefreshEventView>) -> (
    RefreshStateView,
    RefreshActionView,
)
    decreases events.len(),
{
    if events.len() == 0 {
        (state, RefreshActionView::Wait)
    } else {
        refresh_next(refresh_run(state, events.drop_last()).0, events.last())
    }
}

/// The event tells how parsing one file went.
pub open spec fn is_parse_event(event: RefreshEventView) -> bool {
    event is FileParsed || event is FileFailed
}

/// What the file brought of which the event tells.
pub open spec fn outcome_of(event: RefreshEventView) -> Option<Seq<EntryView>> {
    match event {
        RefreshEventView::FileParsed(records) => Some(records),
        _ => None,
    }
}

/// Without any export file a refresh ends when the directory is listed:
/// with no data where nothing is stored, else with the stored records as
/// they are. Nothing is parsed and nothing is written.
pub proof fn lemma_refresh_without_exports(existing: Seq<EntryView>, names: Seq<Seq<char>>)
    requires
        forall|i: int| 0 <= i < names.len() ==> !crate::exports::export_name(#[trigger] names[i]),
    ensures
        selected_exports(names).len() == 0,
        refresh_next(
            RefreshStateView::ListingExports { existing },
            RefreshEventView::ExportsListed(names),
        ) == if existing.len() == 0 {
            (RefreshStateView::Finished, RefreshActionView::Fail(RefreshErrorView::NoInputData))
        } else {
            (RefreshStateView::Finished, RefreshActionView::Succeed(existing))
        },
{
    let wanted = |t: Seq<char>| crate::exports::export_name(t);
    names.lemma_all_neg_filter_empty(wanted);
    assert(names.filter(wanted).len() == 0);
}

/// Without a store and without any export file a refresh fails with no data.
pub proof fn lemma_refresh_without_any_input(names: Seq<Seq<char>>)
    requires
        forall|i: int| 0 <= i < names.len() ==> !crate::exports::export_name(#[trigger] names[i]),
    ensures
        refresh_run(
            RefreshStateView::LoadingStore,
            seq![RefreshEventView::StoreMissing, RefreshEventView::ExportsListed(names)],
        ) == (RefreshStateView::Finished, RefreshActionView::Fail(RefreshErrorView::NoInputData)),
{
    let events = seq![RefreshEventView::StoreMissing, RefreshEventView::ExportsListed(names)];
    let first = events.drop_last();
    assert(first.drop_last() =~= Seq::<RefreshEventView>::empty());
    assert(first.last() == RefreshEventView::StoreMissing);
    assert(refresh_run(RefreshStateView::LoadingStore, first.drop_last()).0
        == RefreshStateView::LoadingStore);
    assert(refresh_run(RefreshStateView::LoadingStore, first).0
        == RefreshStateView::ListingExports { existing: Seq::<EntryView>::empty() });
    lemma_refresh_without_exports(Seq::empty(), names);
}

/// While files are parsed the machine gathers their outcomes in order.
pub proof fn lemma_refresh_parsing(
    existing: Seq<EntryView>,
    files: Seq<Seq<char>>,
    events: Seq<RefreshEventView>,
)
    requires
        0 < events.len() <= files.len(),
        forall|i: int| 0 <= i < events.len() ==> is_parse_event(#[trigger] events[i]),
    ensures
        refresh_run(
            RefreshStateView::ParsingExports { existing, files, outcomes: Seq::empty() },
            events,
        ) == after_outcome(existing, files, events.map_values(|e: RefreshEventView| outcome_of(e))),
    decreases events.len(),
{
    let start = RefreshStateView::ParsingExports { existing, files, outcomes: Seq::empty() };
    let outcome = |e: RefreshEventView| outcome_of(e);
    let front = events.drop_last();
    let last = events.last();
    assert(is_parse_event(events[events.len() - 1]));
    assert(events.map_values(outcome) =~= front.map_values(outcome).push(outcome_of(last)));
    if front.len() == 0 {
        assert(front.map_values(outcome) =~= Seq::<Option<Seq<EntryView>>>::empty());
        assert(refresh_run(start, front).0 == start);
    } else {
        assert forall|i: int| 0 <= i < front.len() implies is_parse_event(#[trigger] front[i]) by {
            assert(front[i] == events[i]);
        }
        lemma_refresh_parsing(existing, files, front);
    }
}

/// With export files a refresh comes to the point of storing: once the
/// directory is listed and each file has been parsed or has failed, in
/// order, the machine asks for the stored records merged with the records of
/// the files that parsed to be written, and waits for that.
pub proof fn lemma_refresh_reaches_saving(
    existing: Seq<EntryView>,
    names: Seq<Seq<char>>,
    events: Seq<RefreshEventView>,
)
    requires
        selected_exports(names).len() > 0,
        events.len() == selected_exports(names).len(),
        forall|i: int| 0 <= i < events.len() ==> is_parse_event(#[trigger] events[i]),
    ensures
        refresh_run(
            RefreshStateView::ListingExports { existing },
            seq![RefreshEventView::ExportsListed(names)] + events,
        ) == ({
            let result = crate::merge::merged(
                existing,
                crate::refresh::flattened(events.map_values(|e: RefreshEventView| outcome_of(e))),
            );
            (RefreshStateView::SavingStore { merged: result }, RefreshActionView::SaveStore(result))
        }),
{
    let files = selected_exports(names);
    let listing = RefreshStateView::ListingExports { existing };
    let parsing = RefreshStateView::ParsingExports { existing, files, outcomes: Seq::empty() };
    let listed = seq![RefreshEventView::ExportsListed(names)];
    lemma_refresh_parsing(existing, files, events);
    lemma_refresh_run_concat(listing, listed, events);
    lemma_refresh_run_single(listing, RefreshEventView::ExportsListed(names));
    assert(refresh_run(listing, listed).0 == parsing);
}

/// A whole refresh with export files: once the directory is listed, each
/// file has been parsed or has failed, in order, and the store is written,
/// the refresh succeeds with the stored records merged with the records of
/// the files that parsed.
pub proof fn lemma_refresh_with_exports(
    existing: Seq<EntryView>,
    names: Seq<Seq<char>>,
    events: Seq<RefreshEventView>,
)
    requires
        selected_exports(names).len() > 0,
        events.len() == selected_exports(names).len(),
        forall|i: int| 0 <= i < events.len() ==> is_parse_event(#[trigger] events[i]),
    ensures
        refresh_run(
            RefreshStateView::ListingExports { existing },
            seq![RefreshEventView::ExportsListed(names)] + events + seq![
                RefreshEventView::StoreSaved,
            ],
        ) == (
            RefreshStateView::Finished,
            RefreshActionView::Succeed(
                crate::merge::merged(
                    existing,
                    crate::refresh::flattened(
                        events.map_values(|e: RefreshEventView| outcome_of(e)),
                    ),
                ),
            ),
        ),
{
    let listing = RefreshStateView::ListingExports { existing };
    let before = seq![RefreshEventView::ExportsListed(names)] + events;
    lemma_refresh_reaches_saving(existing, names, events);
    lemma_refresh_run_concat(listing, before, seq![RefreshEventView::StoreSaved]);
    lemma_refresh_run_single(refresh_run(listing, before).0, RefreshEventView::StoreSaved);
}

/// A refresh whose result cannot be written fails with a persistence error,
/// whatever the files held.
pub proof fn lemma_refresh_save_failure(
    existing: Seq<EntryView>,
    names: Seq<Seq<char>>,
    events: Seq<RefreshEventView>,
    message: Seq<char>,
)
    requires
        selected_exports(names).len() > 0,
        events.len() == selected_exports(names).len(),
        forall|i: int| 0 <= i < events.len() ==> is_parse_event(#[trigger] events[i]),
    ensures
        refresh_run(
            RefreshStateView::ListingExports { existing },
            seq![RefreshEventView::ExportsListed(names)] + events + seq![
                RefreshEventView::SaveFailed(message),
            ],
        ) == (
            RefreshStateView::Finished,
            RefreshActionView::Fail(RefreshErrorView::PersistenceError(message)),
        ),
{
    let listing = RefreshStateView::ListingExports { existing };
    let before = seq![RefreshEventView::ExportsListed(names)] + events;
    lemma_refresh_reaches_saving(existing, names, events);
    lemma_refresh_run_concat(listing, before, seq![RefreshEventView::SaveFailed(message)]);
    lemma_refresh_run_single(refresh_run(listing, before).0, RefreshEventView::SaveFailed(message));
}

/// A run of one event is one step.
pub proof fn lemma_refresh_run_single(state: RefreshStateView, event: RefreshEventView)
    ensures
        refresh_run(state, seq![event]) == refresh_next(state, event),
{
    assert(seq![event].drop_last() =~= Seq::<RefreshEventView>::empty());
    assert(refresh_run(state, seq![event].drop_last()).0 == state);
}

/// A run falls into the run of its first part and, from where that ends,
/// the run of the rest.
pub proof fn lemma_refresh_run_concat(
    state: RefreshStateView,
    first: Seq<RefreshEventView>,
    rest: Seq<RefreshEventView>,
)
    requires
        rest.len() > 0,
    ensures
        refresh_run(state, first + rest) == refresh_run(refresh_run(state, first).0, rest),
    decreases rest.len(),
{
    let all = first + rest;
    assert(all.drop_last() =~= first + rest.drop_last());
    assert(all.last() == rest.last());
    if rest.len() == 1 {
        assert(first + rest.drop_last() =~= first);
        assert(rest.drop_last() =~= Seq::<RefreshEventView>::empty());
        assert(refresh_run(refresh_run(state, first).0, rest.drop_last()).0 == refresh_run(
            state,
            first,
        ).0);
    } else {
        lemma_refresh_run_concat(state, first, rest.drop_last());
    }
}

} // verus!
