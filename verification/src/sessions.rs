//! Study sessions: the preparatory records derived from a test.

use crate::calendar::{day_iso_text, iso_date_day, CalendarDate};
use crate::entry::{study_type, views, EntryView, HomeworkEntry};
use crate::ident::{compute_study_session_id, source_id_of, study_session_id_of};
use crate::text::{chars_of, contains_text, has_substring, lowercase_of, to_lowercase};
use vstd::prelude::*;
use vstd::string::{StrSliceExecFns, StringExecFns};

verus! {

/// Most study sessions that one test gets.
pub const MAX_SESSIONS: i64 = 4;

/// Most characters of a task that a session's title keeps.
pub const TITLE_TASK_LIMIT: usize = 100;

/// A lower-cased task names a test: it holds one of the words for a written
/// test, a trial, a test or an oral exam.
pub open spec fn names_a_test(lowered: Seq<char>) -> bool {
    ||| contains_text(lowered, "verifica"@)
    ||| contains_text(lowered, "prova"@)
    ||| contains_text(lowered, "test"@)
    ||| contains_text(lowered, "interrogazione"@)
}

/// How many sessions a test gets that lies `days_until` days ahead: none with
/// less than two days to go, otherwise one for each day strictly between
/// today and the test, four at most.
pub open spec fn session_count(days_until: int) -> nat {
    if days_until < 2 {
        0
    } else if days_until - 1 < MAX_SESSIONS {
        (days_until - 1) as nat
    } else {
        MAX_SESSIONS as nat
    }
}

/// The task as a session's title shows it: whole up to a hundred characters,
/// else its first hundred followed by three dots.
pub open spec fn shortened(task: Seq<char>) -> Seq<char> {
    if task.len() > TITLE_TASK_LIMIT {
        task.take(TITLE_TASK_LIMIT as int) + "..."@
    } else {
        task
    }
}

/// The title of the sessions for a test with the given task.
pub open spec fn title_of(task: Seq<char>) -> Seq<char> {
    "Study for: "@ + shortened(task)
}

/// The session `days_before` days ahead of `test`, dated `date`, stamped `stamp`.
pub open spec fn study_session(
    test: EntryView,
    date: Seq<char>,
    days_before: usize,
    stamp: Seq<char>,
) -> EntryView {
    EntryView {
        id: study_session_id_of(test.id, days_before),
        source_id: Some(source_id_of(date, test.subject, title_of(test.task))),
        entry_type: study_type(),
        date,
        subject: test.subject,
        task: title_of(test.task),
        completed: false,
        position: 0,
        parent_id: Some(test.id),
        created_at: stamp,
        updated_at: stamp,
    }
}

/// The sessions of a test that falls on day `test_day`, seen from `today`:
/// the day before the test first, then one day earlier each.
pub open spec fn sessions_for(test: EntryView, test_day: int, today: int, stamp: Seq<char>) -> Seq<
    EntryView,
> {
    Seq::new(
        session_count(test_day - today),
        |i: int| study_session(test, day_iso_text((test_day - (i + 1)) as i32), (i + 1) as usize, stamp),
    )
}

/// The sessions of a test seen from `today`; none where its date is not a
/// calendar date.
pub open spec fn study_sessions(test: EntryView, today: int, stamp: Seq<char>) -> Seq<EntryView> {
    match iso_date_day(test.date) {
        Some(test_day) => sessions_for(test, test_day as int, today, stamp),
        None => Seq::empty(),
    }
}

/// Whether a task, already in lower case, holds one of the test words.
pub fn has_test_keyword(lowered: &str) -> (r: bool)
    ensures
        r == names_a_test(lowered@),
{
    let hay = chars_of(lowered);
    has_substring(&hay, &chars_of("verifica")) || has_substring(&hay, &chars_of("prova"))
        || has_substring(&hay, &chars_of("test")) || has_substring(
        &hay,
        &chars_of("interrogazione"),
    )
}

/// Whether an entry announces a test or quiz: its task, in lower case, holds
/// one of the test words.
pub fn is_test_or_quiz(entry: &HomeworkEntry) -> (r: bool)
    ensures
        r == names_a_test(lowercase_of(entry@.task)),
{
    let lowered = to_lowercase(entry.task.as_str());
    has_test_keyword(lowered.as_str())
}

/// The title of the sessions for a test with the given task.
pub fn session_title(task: &str) -> (r: String)
    ensures
        r@ == title_of(task@),
{
    let mut title = String::from_str("Study for: ");
    if task.unicode_len() > TITLE_TASK_LIMIT {
        title.append(task.substring_char(0, TITLE_TASK_LIMIT));
        title.append("...");
        assert(title@ =~= title_of(task@));
    } else {
        title.append(task);
    }
    title
}

/// The days on which to study for a test on `test_day`, seen from `today`:
/// the day before the test first.
pub fn session_days(test_day: CalendarDate, today: CalendarDate) -> (r: Vec<CalendarDate>)
    ensures
        r@.len() == session_count(test_day.day_number() - today.day_number()),
        forall|i: int|
            0 <= i < r@.len() ==> (#[trigger] r@[i]).day_number() == test_day.day_number() - (i
                + 1),
{
    let days_until: i64 = test_day.days_since(&today);
    let mut days: Vec<CalendarDate> = Vec::new();
    if days_until < 2 {
        return days;
    }
    let wanted: i64 = if days_until - 1 < MAX_SESSIONS {
        days_until - 1
    } else {
        MAX_SESSIONS
    };
    let today_number: i32 = today.num_days_from_ce();
    let mut before: u32 = 1;
    while before as i64 <= wanted
        invariant
            1 <= before <= wanted + 1,
            wanted <= MAX_SESSIONS,
            wanted <= test_day.day_number() - today.day_number() - 1,
            today.day_number() >= crate::calendar::MIN_DAY,
            days@.len() == before - 1,
            forall|i: int|
                0 <= i < days@.len() ==> (#[trigger] days@[i]).day_number()
                    == test_day.day_number() - (i + 1),
        decreases wanted + 1 - before,
    {
        let day = test_day.checked_sub_days(before);
        assert(day is Some);
        days.push(day.unwrap());
        before += 1;
    }
    days
}

/// The session `days_before` days ahead of `test`, dated `date`, stamped `stamp`.
pub fn build_study_session(test: &HomeworkEntry, date: String, days_before: usize, stamp: &str) -> (r:
    HomeworkEntry)
    ensures
        r@ == study_session(test@, date@, days_before, stamp@),
{
    let task = session_title(test.task.as_str());
    let id = compute_study_session_id(test.id.as_str(), days_before);
    let source_id = HomeworkEntry::generate_source_id(
        date.as_str(),
        test.subject.as_str(),
        task.as_str(),
    );
    HomeworkEntry {
        id,
        source_id: Some(source_id),
        entry_type: String::from_str("studio"),
        date,
        subject: test.subject.clone(),
        task,
        completed: false,
        position: 0,
        parent_id: Some(test.id.clone()),
        created_at: String::from_str(stamp),
        updated_at: String::from_str(stamp),
    }
}

/// The study sessions for `test` seen from `today`, each stamped `stamp`.
pub fn study_sessions_at(test: &HomeworkEntry, today: CalendarDate, stamp: &str) -> (r: Vec<
    HomeworkEntry,
>)
    ensures
        views(r@) == study_sessions(test@, today.day_number(), stamp@),
{
    let mut sessions: Vec<HomeworkEntry> = Vec::new();
    let test_day = match CalendarDate::parse(test.date.as_str()) {
        Some(day) => day,
        None => {
            assert(views(sessions@) =~= Seq::<EntryView>::empty());
            return sessions;
        },
    };
    let days = session_days(test_day, today);
    let ghost expected = sessions_for(test@, test_day.day_number(), today.day_number(), stamp@);
    let mut i: usize = 0;
    while i < days.len()
        invariant
            i <= days.len(),
            days@.len() == expected.len(),
            expected == sessions_for(test@, test_day.day_number(), today.day_number(), stamp@),
            forall|k: int|
                0 <= k < days@.len() ==> (#[trigger] days@[k]).day_number()
                    == test_day.day_number() - (k + 1),
            views(sessions@) == expected.take(i as int),
        decreases days.len() - i,
    {
        let date = days[i].to_iso_string();
        let session = build_study_session(test, date, i + 1, stamp);
        proof {
            assert(session@ == expected[i as int]);
            assert(views(sessions@.push(session)) =~= views(sessions@).push(session@));
            assert(expected.take(i + 1) =~= expected.take(i as int).push(expected[i as int]));
        }
        sessions.push(session);
        i += 1;
    }
    assert(expected.take(expected.len() as int) =~= expected);
    sessions
}

/// The time stamp that derived sessions carry: the instant at which `today`
/// begins, in UTC, written as RFC 3339 writes it.
pub open spec fn start_of_day(today: int) -> Seq<char> {
    day_iso_text(today as i32) + "T00:00:00+00:00"@
}

/// The time stamp for sessions derived on `today`.
pub fn day_stamp(today: CalendarDate) -> (r: String)
    ensures
        r@ == start_of_day(today.day_number()),
{
    let mut stamp = today.to_iso_string();
    stamp.append("T00:00:00+00:00");
    stamp
}

/// The study sessions for `test` seen from `today`: up to four records on
/// the days leading up to the test, each linked to the test through
/// `parent_id` and stamped with the start of `today`. The result depends on
/// the test and on `today` alone: whenever it is asked for again, it is the
/// same in every field.
pub fn generate_study_sessions(test: &HomeworkEntry, today: CalendarDate) -> (r: Vec<HomeworkEntry>)
    ensures
        views(r@) == study_sessions(test@, today.day_number(), start_of_day(today.day_number())),
{
    let stamp = day_stamp(today);
    study_sessions_at(test, today, stamp.as_str())
}

/// A record without its time stamps.
pub open spec fn unstamped(e: EntryView) -> EntryView {
    EntryView { created_at: Seq::empty(), updated_at: Seq::empty(), ..e }
}

/// Deriving study sessions is deterministic: whenever it is done for the
/// same test on the same day it yields as many sessions, with the same
/// identifiers, and the same in every field but the time stamps.
pub proof fn lemma_sessions_are_deterministic(
    test: EntryView,
    today: int,
    first_stamp: Seq<char>,
    second_stamp: Seq<char>,
)
    ensures
        study_sessions(test, today, first_stamp).len() == study_sessions(
            test,
            today,
            second_stamp,
        ).len(),
        forall|i: int|
            0 <= i < study_sessions(test, today, first_stamp).len() ==> (
            #[trigger] study_sessions(test, today, first_stamp)[i]).id == study_sessions(
                test,
                today,
                second_stamp,
            )[i].id,
        study_sessions(test, today, first_stamp).map_values(|e: EntryView| unstamped(e))
            == study_sessions(test, today, second_stamp).map_values(|e: EntryView| unstamped(e)),
{
    let first = study_sessions(test, today, first_stamp);
    let second = study_sessions(test, today, second_stamp);
    assert(first.map_values(|e: EntryView| unstamped(e)) =~= second.map_values(
        |e: EntryView| unstamped(e),
    ));
}

/// A test gets four sessions at most, each points back to the test, is of
/// the reserved type and not completed, and the sessions fall on the days
/// before the test, the nearest first.
pub proof fn lemma_sessions_lead_up_to_test(test: EntryView, today: int, stamp: Seq<char>)
    ensures
        study_sessions(test, today, stamp).len() <= MAX_SESSIONS,
        forall|i: int|
            0 <= i < study_sessions(test, today, stamp).len() ==> {
                let session = #[trigger] study_sessions(test, today, stamp)[i];
                &&& iso_date_day(test.date) matches Some(test_day) && session.date
                    == day_iso_text((test_day - (i + 1)) as i32) && today < test_day - (i + 1)
                &&& session.parent_id == Some(test.id)
                &&& session.entry_type == study_type()
                &&& !session.completed
                &&& session.position == 0
            },
{
}

/// The title of a session is bounded. A task of up to a hundred characters
/// stands in it whole; of a longer one its first hundred characters stand
/// there, followed by three dots, and the title has 114 characters.
pub proof fn lemma_title_is_bounded(task: Seq<char>)
    ensures
        title_of(task).len() <= 114,
        task.len() <= TITLE_TASK_LIMIT ==> title_of(task) == "Study for: "@ + task,
        task.len() > TITLE_TASK_LIMIT ==> title_of(task) == "Study for: "@ + task.take(100) + "..."@
            && title_of(task).len() == 114 && title_of(task).skip(111) == "..."@,
{
    reveal_strlit("Study for: ");
    reveal_strlit("...");
    if task.len() > TITLE_TASK_LIMIT {
        assert(title_of(task) =~= "Study for: "@ + task.take(100) + "..."@);
        assert(title_of(task).skip(111) =~= "..."@);
    }
}

} // verus!
