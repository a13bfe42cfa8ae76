//! The refresh pipeline: load what is stored, find the export files, parse
//! them, merge, store the result. The library decides each step from what
//! the step before brought; reading and writing files is the caller's part.

use crate::entry::{views, EntryView, HomeworkEntry};
use crate::merge::{merge, merged};
use vstd::prelude::*;
use vstd::string::StringExecFns;

verus! {

/// Why a refresh failed.
#[derive(Debug, PartialEq, Eq)]
pub enum RefreshError {
    /// No export file was found and nothing is stored: there is nothing to serve.
    NoInputData,
    /// The store exists and its content is malformed.
    ParseError(String),
    /// The store could not be read or could not be written.
    PersistenceError(String),
}

/// A refresh error with its message as characters.
pub enum RefreshErrorView {
    NoInputData,
    ParseError(Seq<char>),
    PersistenceError(Seq<char>),
}

impl View for RefreshError {
    type V = RefreshErrorView;

    open spec fn view(&self) -> RefreshErrorView {
        match *self {
            RefreshError::NoInputData => RefreshErrorView::NoInputData,
            RefreshError::ParseError(message) => RefreshErrorView::ParseError(message@),
            RefreshError::PersistenceError(message) => RefreshErrorView::PersistenceError(message@),
        }
    }
}

/// The message of a refresh error.
pub open spec fn error_text(e: RefreshErrorView) -> Seq<char> {
    match e {
        RefreshErrorView::NoInputData => "No export files found in data/ and no stored data"@,
        RefreshErrorView::ParseError(message) => "Stored data is malformed: "@ + message,
        RefreshErrorView::PersistenceError(message) => "Could not read or write the store: "@ + message,
    }
}

impl RefreshError {
    /// The error as a line of text.
    pub fn message(&self) -> (r: String)
        ensures
            r@ == error_text(self@),
    {
        match self {
            RefreshError::NoInputData => String::from_str(
                "No export files found in data/ and no stored data",
            ),
            RefreshError::ParseError(message) => {
                let mut text = String::from_str("Stored data is malformed: ");
                text.append(message.as_str());
                text
            },
            RefreshError::PersistenceError(message) => {
                let mut text = String::from_str("Could not read or write the store: ");
                text.append(message.as_str());
                text
            },
        }
    }
}

/// What parsing one export file brought: its records, or nothing where the
/// file could not be parsed.
pub open spec fn outcome_view(outcome: Option<Vec<HomeworkEntry>>) -> Option<Seq<EntryView>> {
    match outcome {
        Some(records) => Some(views(records@)),
        None => None,
    }
}

/// The views of the outcomes of a batch of files, in order.
pub open spec fn outcome_views(outcomes: Seq<Option<Vec<HomeworkEntry>>>) -> Seq<
    Option<Seq<EntryView>>,
> {
    outcomes.map_values(|o: Option<Vec<HomeworkEntry>>| outcome_view(o))
}

/// The records of one file; none where it failed.
pub open spec fn contribution(outcome: Option<Seq<EntryView>>) -> Seq<EntryView> {
    match outcome {
        Some(records) => records,
        None => Seq::empty(),
    }
}

/// The records of all files that parsed, in file order and, within a file,
/// in parse order.
pub open spec fn flattened(outcomes: Seq<Option<Seq<EntryView>>>) -> Seq<EntryView>
    decreases outcomes.len(),
{
    if outcomes.len() == 0 {
        Seq::empty()
    } else {
        flattened(outcomes.drop_last()) + contribution(outcomes.last())
    }
}

/// What a refresh yields from the stored records and the outcome of each
/// export file. Without any export file the stored records stand as they
/// are, and where nothing is stored either there is no data. With export
/// files, whether they parsed or not, the result is the merged set.
pub open spec fn refreshed(existing: Seq<EntryView>, outcomes: Seq<Option<Seq<EntryView>>>) -> Result<
    Seq<EntryView>,
    RefreshErrorView,
> {
    if outcomes.len() == 0 {
        if existing.len() == 0 {
            Err(RefreshErrorView::NoInputData)
        } else {
            Ok(existing)
        }
    } else {
        Ok(merged(existing, flattened(outcomes)))
    }
}

/// The view of a refresh's result.
pub open spec fn result_view(r: Result<Vec<HomeworkEntry>, RefreshError>) -> Result<
    Seq<EntryView>,
    RefreshErrorView,
> {
    match r {
        Ok(entries) => Ok(views(entries@)),
        Err(e) => Err(e@),
    }
}

/// The records of the export files that parsed, one outcome per file in the
/// order in which the files were read. A file that failed adds nothing and
/// stops nothing. Without any file there is no input.
pub fn parse_all_exports(outcomes: Vec<Option<Vec<HomeworkEntry>>>) -> (r: Result<
    Vec<HomeworkEntry>,
    RefreshError,
>)
    ensures
        result_view(r) == if outcomes@.len() == 0 {
            Err::<Seq<EntryView>, RefreshErrorView>(RefreshErrorView::NoInputData)
        } else {
            Ok(flattened(outcome_views(outcomes@)))
        },
{
    if outcomes.len() == 0 {
        return Err(RefreshError::NoInputData);
    }
    let ghost all = outcomes@;
    let mut entries: Vec<HomeworkEntry> = Vec::new();
    assert(outcome_views(all.take(0)) =~= Seq::<Option<Seq<EntryView>>>::empty());
    assert(views(entries@) =~= Seq::<EntryView>::empty());
    for outcome in it: outcomes
        invariant
            it.seq() == all,
            views(entries@) == flattened(outcome_views(all.take(it.index()))),
    {
        proof {
            let upto = outcome_views(all.take(it.index() + 1));
            assert(upto.drop_last() =~= outcome_views(all.take(it.index())));
            assert(upto.last() == outcome_view(outcome));
        }
        match outcome {
            Some(records) => {
                let mut records = records;
                let ghost added = records@;
                let ghost before = entries@;
                entries.append(&mut records);
                assert(views(before + added) =~= views(before) + views(added));
            },
            None => {
                assert(views(entries@) + Seq::<EntryView>::empty() =~= views(entries@));
            },
        }
    }
    assert(all.take(all.len() as int) =~= all);
    Ok(entries)
}

/// What a refresh yields, before it is stored, from the stored records and
/// the outcome of each export file.
pub fn process_all_exports(
    existing: Vec<HomeworkEntry>,
    outcomes: Vec<Option<Vec<HomeworkEntry>>>,
) -> (r: Result<Vec<HomeworkEntry>, RefreshError>)
    ensures
        result_view(r) == refreshed(views(existing@), outcome_views(outcomes@)),
{
    if outcomes.len() == 0 {
        if existing.len() == 0 {
            Err(RefreshError::NoInputData)
        } else {
            Ok(existing)
        }
    } else {
        match parse_all_exports(outcomes) {
            Ok(incoming) => Ok(merge(existing, incoming)),
            Err(e) => Err(e),
        }
    }
}

} // verus!
