//! The homework record and its mathematical view.

use crate::calendar::current_timestamp;
use crate::ident;
use crate::text::same_text;
use vstd::prelude::*;

verus! {

/// One homework item, or one study session derived from a test.
#[derive(Debug, PartialEq, Eq)]
pub struct HomeworkEntry {
    /// Stable identifier, unique within a stored set.
    pub id: String,
    /// Content fingerprint of (date, subject, task).
    pub source_id: Option<String>,
    /// Kind of entry; `studio` is reserved for derived study sessions.
    pub entry_type: String,
    /// Calendar date as `YYYY-MM-DD`.
    pub date: String,
    /// Category label.
    pub subject: String,
    /// Description.
    pub task: String,
    /// Set by the user, never by the pipeline.
    pub completed: bool,
    /// Ordering hint within a day.
    pub position: i32,
    /// For a derived study session, the identifier of the test it prepares.
    pub parent_id: Option<String>,
    /// When the record was made.
    pub created_at: String,
    /// When the record was last changed.
    pub updated_at: String,
}

/// What a record is, field by field, with every text as its characters.
pub struct EntryView {
    pub id: Seq<char>,
    pub source_id: Option<Seq<char>>,
    pub entry_type: Seq<char>,
    pub date: Seq<char>,
    pub subject: Seq<char>,
    pub task: Seq<char>,
    pub completed: bool,
    pub position: int,
    pub parent_id: Option<Seq<char>>,
    pub created_at: Seq<char>,
    pub updated_at: Seq<char>,
}

/// The characters of an optional text.
pub open spec fn optional_text(s: Option<String>) -> Option<Seq<char>> {
    match s {
        Some(text) => Some(text@),
        None => None,
    }
}

impl View for HomeworkEntry {
    type V = EntryView;

    open spec fn view(&self) -> EntryView {
        EntryView {
            id: self.id@,
            source_id: optional_text(self.source_id),
            entry_type: self.entry_type@,
            date: self.date@,
            subject: self.subject@,
            task: self.task@,
            completed: self.completed,
            position: self.position as int,
            parent_id: optional_text(self.parent_id),
            created_at: self.created_at@,
            updated_at: self.updated_at@,
        }
    }
}

/// The views of a sequence of records, in order.
pub open spec fn views(entries: Seq<HomeworkEntry>) -> Seq<EntryView> {
    entries.map_values(|e: HomeworkEntry| e@)
}

/// The entry type reserved for derived study sessions.
pub open spec fn study_type() -> Seq<char> {
    "studio"@
}

/// What two records must share to count as the same item: type, date,
/// subject and task.
pub open spec fn dedup_key(e: EntryView) -> (Seq<char>, Seq<char>, Seq<char>, Seq<char>) {
    (e.entry_type, e.date, e.subject, e.task)
}

/// The record that ingestion makes of one parsed row, stamped `stamp`: its
/// identifier is the content fingerprint, it is not completed, sits at
/// position zero and has no parent.
pub open spec fn fresh_entry(
    entry_type: Seq<char>,
    date: Seq<char>,
    subject: Seq<char>,
    task: Seq<char>,
    stamp: Seq<char>,
) -> EntryView {
    EntryView {
        id: ident::source_id_of(date, subject, task),
        source_id: Some(ident::source_id_of(date, subject, task)),
        entry_type,
        date,
        subject,
        task,
        completed: false,
        position: 0,
        parent_id: None,
        created_at: stamp,
        updated_at: stamp,
    }
}

fn clone_optional(s: &Option<String>) -> (r: Option<String>)
    ensures
        r == *s,
{
    match s {
        Some(text) => Some(text.clone()),
        None => None,
    }
}

impl Clone for HomeworkEntry {
    fn clone(&self) -> (r: Self)
        ensures
            r == *self,
    {
        HomeworkEntry {
            id: self.id.clone(),
            source_id: clone_optional(&self.source_id),
            entry_type: self.entry_type.clone(),
            date: self.date.clone(),
            subject: self.subject.clone(),
            task: self.task.clone(),
            completed: self.completed,
            position: self.position,
            parent_id: clone_optional(&self.parent_id),
            created_at: self.created_at.clone(),
            updated_at: self.updated_at.clone(),
        }
    }
}

impl HomeworkEntry {
    /// The record for one parsed row, stamped with the current time.
    pub fn new(entry_type: String, date: String, subject: String, task: String) -> (r: Self)
        ensures
            exists|stamp: Seq<char>| r@ == fresh_entry(entry_type@, date@, subject@, task@, stamp),
    {
        let now = current_timestamp();
        Self::with_timestamp(entry_type, date, subject, task, now)
    }

    /// The record for one parsed row, stamped `stamp`.
    pub fn with_timestamp(
        entry_type: String,
        date: String,
        subject: String,
        task: String,
        stamp: String,
    ) -> (r: Self)
        ensures
            r@ == fresh_entry(entry_type@, date@, subject@, task@, stamp@),
    {
        let fingerprint = Self::generate_source_id(date.as_str(), subject.as_str(), task.as_str());
        HomeworkEntry {
            id: fingerprint.clone(),
            source_id: Some(fingerprint),
            entry_type,
            date,
            subject,
            task,
            completed: false,
            position: 0,
            parent_id: None,
            created_at: stamp.clone(),
            updated_at: stamp,
        }
    }

    /// The content fingerprint of (date, subject, task).
    pub fn generate_source_id(date: &str, subject: &str, task: &str) -> (r: String)
        ensures
            r@ == ident::source_id_of(date@, subject@, task@),
    {
        ident::generate_source_id(date, subject, task)
    }

    /// Whether the record is a derived study session.
    pub fn is_generated(&self) -> (r: bool)
        ensures
            r == (self@.entry_type == study_type()),
    {
        same_text(self.entry_type.as_str(), "studio")
    }

    /// Whether two records count as the same item.
    pub fn same_key(&self, other: &HomeworkEntry) -> (r: bool)
        ensures
            r == (dedup_key(self@) == dedup_key(other@)),
    {
        self.entry_type == other.entry_type && self.date == other.date && self.subject
            == other.subject && self.task == other.task
    }
}

/// A copy of the records, each field for field.
pub fn clone_entries(entries: &Vec<HomeworkEntry>) -> (r: Vec<HomeworkEntry>)
    ensures
        r@ == entries@,
{
    let mut out: Vec<HomeworkEntry> = Vec::new();
    let mut i: usize = 0;
    while i < entries.len()
        invariant
            i <= entries.len(),
            out@ == entries@.take(i as int),
        decreases entries.len() - i,
    {
        out.push(entries[i].clone());
        assert(entries@.take(i + 1) =~= entries@.take(i as int).push(entries@[i as int]));
        i += 1;
    }
    assert(entries@.take(entries@.len() as int) =~= entries@);
    out
}

} // verus!
