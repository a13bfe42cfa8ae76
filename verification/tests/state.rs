use compitutto::entry::HomeworkEntry;
use compitutto::state::{AppState, RefreshResult};

fn make_record(entry_type: &str, date: &str, subject: &str, task: &str) -> HomeworkEntry {
    HomeworkEntry::new(
        entry_type.to_string(),
        date.to_string(),
        subject.to_string(),
        task.to_string(),
    )
}

// ========== AppState ==========

#[test]
fn test_app_state_new() {
    let entries = vec![make_record("compiti", "2025-01-15", "MATEMATICA", "Task 1")];
    let state = AppState::new(entries.clone(), "/test/path".to_string());

    assert_eq!(state.output_dir, "/test/path");
    assert_eq!(state.entries, entries);
}

#[test]
fn test_app_state_entries_read() {
    let entries = vec![
        make_record("compiti", "2025-01-15", "MATEMATICA", "Task 1"),
        make_record("nota", "2025-01-16", "ITALIANO", "Task 2"),
    ];
    let state = AppState::new(entries.clone(), ".".to_string());

    let read_entries = state.snapshot();
    assert_eq!(read_entries.len(), 2);
    assert_eq!(read_entries[0].subject, "MATEMATICA");
}

#[test]
fn test_app_state_entries_write() {
    let mut state = AppState::new(vec![], ".".to_string());

    let old_count =
        state.replace(vec![make_record("compiti", "2025-01-15", "MATEMATICA", "Task 1")]);
    assert_eq!(old_count, 0);

    let read_entries = state.snapshot();
    assert_eq!(read_entries.len(), 1);
}

#[test]
fn test_read_write_consistency() {
    let mut state = AppState::new(vec![], ".".to_string());

    // Write some entries
    state.replace(vec![
        make_record("compiti", "2025-01-15", "MATEMATICA", "Task 1"),
        make_record("nota", "2025-01-16", "ITALIANO", "Task 2"),
    ]);

    // Read and verify
    let entries = state.snapshot();
    assert_eq!(entries.len(), 2);
}

#[test]
fn a_snapshot_is_whole_and_unaffected_by_a_later_replace() {
    let before = vec![
        make_record("compiti", "2025-01-15", "MATEMATICA", "Task 1"),
        make_record("nota", "2025-01-16", "ITALIANO", "Task 2"),
    ];
    let after = vec![make_record("compiti", "2025-01-17", "STORIA", "Task 3")];
    let mut state = AppState::new(before.clone(), "dir".to_string());

    let old = state.snapshot();
    let old_count = state.replace(after.clone());
    let new = state.snapshot();

    assert_eq!(old_count, 2);
    assert_eq!(old, before);
    assert_eq!(new, after);
    assert_eq!(state.output_dir, "dir");
}

// ========== RefreshResult ==========

#[test]
fn test_refresh_result_updated() {
    let result = RefreshResult::Updated { old_count: 5, new_count: 10 };
    assert_eq!(result, RefreshResult::Updated { old_count: 5, new_count: 10 });

    assert_eq!(result.message(), "Updated: 10 entries (+5)");
}

#[test]
fn test_refresh_result_no_change() {
    let result = RefreshResult::NoChange { count: 5 };
    assert_eq!(result, RefreshResult::NoChange { count: 5 });
    assert_eq!(result.message(), "No new entries found");
}

#[test]
fn test_refresh_result_error() {
    let result = RefreshResult::Error("test error".to_string());
    assert_eq!(result, RefreshResult::Error("test error".to_string()));
    assert_eq!(result.message(), "Failed to refresh: test error");
}

#[test]
fn test_refresh_result_debug() {
    let result = RefreshResult::Updated { old_count: 1, new_count: 2 };
    let debug_str = format!("{:?}", result);
    assert!(debug_str.contains("Updated"));
}

#[test]
fn test_refresh_result_clone() {
    let result = RefreshResult::Updated { old_count: 1, new_count: 2 };
    let cloned = result.clone();
    assert_eq!(result, cloned);
}

#[test]
fn result_of_counts() {
    assert_eq!(
        RefreshResult::from_counts(0, 3),
        RefreshResult::Updated { old_count: 0, new_count: 3 }
    );
    assert_eq!(
        RefreshResult::from_counts(3, 0),
        RefreshResult::Updated { old_count: 3, new_count: 0 }
    );
    assert_eq!(RefreshResult::from_counts(3, 3), RefreshResult::NoChange { count: 3 });
    assert_eq!(RefreshResult::from_counts(0, 0), RefreshResult::NoChange { count: 0 });
}

#[test]
fn message_shows_the_signed_change() {
    assert_eq!(
        RefreshResult::Updated { old_count: 10, new_count: 5 }.message(),
        "Updated: 5 entries (-5)"
    );
    assert_eq!(
        RefreshResult::Updated { old_count: 0, new_count: 120 }.message(),
        "Updated: 120 entries (+120)"
    );
    assert_eq!(
        RefreshResult::Updated { old_count: 7, new_count: 7 }.message(),
        "Updated: 7 entries (+0)"
    );
    assert_eq!(
        RefreshResult::Updated { old_count: usize::MAX, new_count: 0 }.message(),
        format!("Updated: 0 entries (-{})", usize::MAX)
    );
}

#[test]
fn change_is_the_signed_difference() {
    assert_eq!(RefreshResult::Updated { old_count: 5, new_count: 10 }.change(), 5);
    assert_eq!(RefreshResult::Updated { old_count: 10, new_count: 5 }.change(), -5);
    assert_eq!(
        RefreshResult::Updated { old_count: usize::MAX, new_count: 0 }.change(),
        -(usize::MAX as i128)
    );
    assert_eq!(RefreshResult::NoChange { count: 4 }.change(), 0);
    assert_eq!(RefreshResult::Error("x".to_string()).change(), 0);
}

#[test]
fn reply_is_one_word() {
    assert_eq!(RefreshResult::Updated { old_count: 1, new_count: 2 }.reply(), "OK");
    assert_eq!(RefreshResult::NoChange { count: 2 }.reply(), "OK");
    assert_eq!(RefreshResult::Error("x".to_string()).reply(), "ERROR");
}
