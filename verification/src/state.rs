//! The served state: the current set of records and where it is stored.
//! It changes in one way only, by taking the result of a refresh whole.

use crate::entry::{clone_entries, HomeworkEntry};
use crate::numerals::{decimal, push_decimal, signed_decimal};
use crate::refresh::{error_text, RefreshError};
use vstd::prelude::*;
use vstd::string::StringExecFns;

verus! {

/// What is served: the records of the last refresh that succeeded, and the
/// directory that the store lies in.
pub struct AppState {
    pub entries: Vec<HomeworkEntry>,
    pub output_dir: String,
}

/// How a refresh changed what is served.
#[derive(Debug, PartialEq, Eq)]
pub enum RefreshResult {
    /// The set was replaced and its size changed.
    Updated { old_count: usize, new_count: usize },
    /// The set was replaced by one of the same size.
    NoChange { count: usize },
    /// The refresh failed; the set is as it was.
    Error(String),
}

/// A refresh result with its message as characters.
pub enum RefreshResultView {
    Updated { old_count: nat, new_count: nat },
    NoChange { count: nat },
    Error(Seq<char>),
}

impl View for RefreshResult {
    type V = RefreshResultView;

    open spec fn view(&self) -> RefreshResultView {
        match *self {
            RefreshResult::Updated { old_count, new_count } => RefreshResultView::Updated {
                old_count: old_count as nat,
                new_count: new_count as nat,
            },
            RefreshResult::NoChange { count } => RefreshResultView::NoChange { count: count as nat },
            RefreshResult::Error(message) => RefreshResultView::Error(message@),
        }
    }
}

impl Clone for RefreshResult {
    fn clone(&self) -> (r: Self)
        ensures
            r == *self,
    {
        match self {
            RefreshResult::Updated { old_count, new_count } => RefreshResult::Updated {
                old_count: *old_count,
                new_count: *new_count,
            },
            RefreshResult::NoChange { count } => RefreshResult::NoChange { count: *count },
            RefreshResult::Error(message) => RefreshResult::Error(message.clone()),
        }
    }
}

/// The result of replacing a set of `old_count` records by one of `new_count`.
pub open spec fn replaced(old_count: nat, new_count: nat) -> RefreshResultView {
    if new_count != old_count {
        RefreshResultView::Updated { old_count, new_count }
    } else {
        RefreshResultView::NoChange { count: new_count }
    }
}

/// By how many records the result says the set grew; negative where it
/// shrank, zero where it kept its size or the refresh failed.
pub open spec fn growth(r: RefreshResultView) -> int {
    match r {
        RefreshResultView::Updated { old_count, new_count } => new_count - old_count,
        _ => 0,
    }
}

/// The line that reports a refresh result.
pub open spec fn result_text(r: RefreshResultView) -> Seq<char> {
    match r {
        RefreshResultView::Updated { old_count, new_count } => "Updated: "@ + decimal(new_count)
            + " entries ("@ + signed_decimal(new_count - old_count) + ")"@,
        RefreshResultView::NoChange { count } => "No new entries found"@,
        RefreshResultView::Error(message) => "Failed to refresh: "@ + message,
    }
}

impl RefreshResult {
    /// The line that reports the result.
    pub fn message(&self) -> (r: String)
        ensures
            r@ == result_text(self@),
    {
        match self {
            RefreshResult::Updated { old_count, new_count } => {
                let mut line = String::from_str("Updated: ");
                push_decimal(&mut line, *new_count as u64);
                line.append(" entries (");
                if *new_count < *old_count {
                    line.append("-");
                    push_decimal(&mut line, (*old_count - *new_count) as u64);
                } else {
                    line.append("+");
                    push_decimal(&mut line, (*new_count - *old_count) as u64);
                }
                line.append(")");
                assert(line@ =~= result_text(self@));
                line
            },
            RefreshResult::NoChange { .. } => String::from_str("No new entries found"),
            RefreshResult::Error(message) => {
                let mut line = String::from_str("Failed to refresh: ");
                line.append(message.as_str());
                line
            },
        }
    }

    /// The result of replacing a set of `old_count` records by one of `new_count`.
    pub fn from_counts(old_count: usize, new_count: usize) -> (r: RefreshResult)
        ensures
            r@ == replaced(old_count as nat, new_count as nat),
    {
        if new_count != old_count {
            RefreshResult::Updated { old_count, new_count }
        } else {
            RefreshResult::NoChange { count: new_count }
        }
    }

    /// By how many records the set grew.
    pub fn change(&self) -> (r: i128)
        ensures
            r == growth(self@),
    {
        match self {
            RefreshResult::Updated { old_count, new_count } => *new_count as i128
                - *old_count as i128,
            _ => 0,
        }
    }

    /// The one-word answer to whoever asked for the refresh.
    pub fn reply(&self) -> (r: &'static str)
        ensures
            r@ == if self@ is Error {
                "ERROR"@
            } else {
                "OK"@
            },
    {
        match self {
            RefreshResult::Error(_) => "ERROR",
            _ => "OK",
        }
    }
}

impl AppState {
    /// The state that serves `entries`, stored under `output_dir`.
    pub fn new(entries: Vec<HomeworkEntry>, output_dir: String) -> (r: AppState)
        ensures
            r.entries == entries,
            r.output_dir == output_dir,
    {
        AppState { entries, output_dir }
    }

    /// A copy of the records that are served now, all of them.
    pub fn snapshot(&self) -> (r: Vec<HomeworkEntry>)
        ensures
            r@ == self.entries@,
    {
        clone_entries(&self.entries)
    }

    /// Replaces the whole set at once and tells how many records it held.
    pub fn replace(&mut self, entries: Vec<HomeworkEntry>) -> (old_count: usize)
        ensures
            final(self).entries == entries,
            final(self).output_dir == old(self).output_dir,
            old_count == old(self).entries@.len(),
    {
        let old_count = self.entries.len();
        self.entries = entries;
        old_count
    }
}

/// Applies the outcome of a refresh to what is served. A refresh that
/// succeeded replaces the whole set by its result; one that failed leaves
/// everything as it was.
pub fn process_refresh(state: &mut AppState, outcome: Result<Vec<HomeworkEntry>, RefreshError>) -> (r:
    RefreshResult)
    ensures
        final(state).output_dir == old(state).output_dir,
        match outcome {
            Ok(entries) => final(state).entries == entries && r@ == replaced(
                old(state).entries@.len(),
                entries@.len(),
            ),
            Err(e) => final(state).entries == old(state).entries && r@ == RefreshResultView::Error(
                error_text(e@),
            ),
        },
{
    match outcome {
        Ok(entries) => {
            let new_count = entries.len();
            let old_count = state.replace(entries);
            RefreshResult::from_counts(old_count, new_count)
        },
        Err(e) => RefreshResult::Error(e.message()),
    }
}

} // verus!
