use compitutto::entry::{clone_entries, HomeworkEntry};
use compitutto::pipeline::{refresh_start, refresh_step, RefreshAction, RefreshEvent, RefreshState};
use compitutto::refresh::{parse_all_exports, process_all_exports, RefreshError};
use compitutto::state::{process_refresh, AppState, RefreshResult};

fn entry(entry_type: &str, date: &str, subject: &str, task: &str) -> HomeworkEntry {
    HomeworkEntry::new(
        entry_type.to_string(),
        date.to_string(),
        subject.to_string(),
        task.to_string(),
    )
}

fn listed(list: &[&str]) -> RefreshEvent {
    RefreshEvent::ExportsListed(list.iter().map(|s| s.to_string()).collect())
}

fn after_loading(existing: Vec<HomeworkEntry>) -> RefreshState {
    let (state, action) = refresh_start();
    assert!(matches!(action, RefreshAction::LoadStore));
    let (state, action) = refresh_step(state, RefreshEvent::StoreLoaded(existing));
    assert!(matches!(action, RefreshAction::ListExports));
    state
}

// ========== parse_all_exports ==========

#[test]
fn test_parse_all_exports_with_files() {
    let result = parse_all_exports(vec![Some(vec![
        entry("compiti", "2025-01-15", "Matematica", "Task 1"),
        entry("nota", "2025-01-16", "Italiano", "Task 2"),
    ])]);

    assert!(result.is_ok());
    let entries = result.unwrap();
    assert_eq!(entries.len(), 2);
}

#[test]
fn test_parse_all_exports_no_files() {
    let result = parse_all_exports(vec![]);

    assert!(result.is_err());
    assert!(result.unwrap_err().message().contains("No export files"));
}

#[test]
fn test_parse_all_exports_handles_invalid_file() {
    let result = parse_all_exports(vec![
        Some(vec![entry("compiti", "2025-01-15", "Matematica", "Valid")]),
        None,
    ]);

    assert!(result.is_ok());
    // Only the valid file's entries
    assert_eq!(result.unwrap().len(), 1);
}

#[test]
fn test_parse_all_exports_multiple_files() {
    let result = parse_all_exports(vec![
        Some(vec![entry("compiti", "2025-01-15", "Matematica", "Task 1")]),
        Some(vec![entry("nota", "2025-01-16", "Italiano", "Task 2")]),
    ]);

    assert!(result.is_ok());
    let entries = result.unwrap();
    assert_eq!(entries.len(), 2);
}

#[test]
fn parsed_records_keep_file_and_parse_order() {
    let result = parse_all_exports(vec![
        Some(vec![entry("c", "2025-01-17", "x", "1"), entry("c", "2025-01-15", "x", "2")]),
        None,
        Some(vec![]),
        Some(vec![entry("c", "2025-01-16", "x", "3"), entry("c", "2025-01-15", "x", "2")]),
    ])
    .unwrap();
    let tasks: Vec<&str> = result.iter().map(|e| e.task.as_str()).collect();
    assert_eq!(tasks, vec!["1", "2", "3", "2"]);
}

#[test]
fn files_that_all_failed_are_still_files() {
    assert_eq!(parse_all_exports(vec![None, None]), Ok(vec![]));
}

// ========== process_all_exports ==========

#[test]
fn no_files_and_nothing_stored_is_no_input() {
    assert_eq!(process_all_exports(vec![], vec![]), Err(RefreshError::NoInputData));
}

#[test]
fn no_files_leaves_the_stored_records_as_they_are() {
    let stored = vec![
        entry("compiti", "2025-01-16", "Italiano", "later"),
        entry("compiti", "2025-01-15", "Matematica", "earlier"),
        entry("compiti", "2025-01-16", "Italiano", "later"),
    ];
    let result = process_all_exports(clone_entries(&stored), vec![]);
    assert_eq!(result, Ok(stored));
}

#[test]
fn files_are_merged_into_the_stored_records() {
    let mut done = entry("compiti", "2025-01-16", "Italiano", "A");
    done.completed = true;
    let stored = vec![done.clone()];
    let result = process_all_exports(
        stored,
        vec![
            Some(vec![entry("compiti", "2025-01-16", "Italiano", "A")]),
            None,
            Some(vec![entry("compiti", "2025-01-15", "Matematica", "B")]),
        ],
    )
    .unwrap();
    assert_eq!(result.len(), 2);
    assert_eq!(result[0].task, "B");
    assert_eq!(result[1], done);
}

#[test]
fn files_that_failed_with_nothing_stored_give_an_empty_set() {
    assert_eq!(process_all_exports(vec![], vec![None]), Ok(vec![]));
}

// ========== the machine ==========

#[test]
fn refresh_without_store_and_files_fails() {
    let (state, _) = refresh_start();
    let (state, action) = refresh_step(state, RefreshEvent::StoreMissing);
    assert!(matches!(action, RefreshAction::ListExports));
    let (state, action) = refresh_step(state, listed(&["notes.txt"]));
    assert!(matches!(state, RefreshState::Finished));
    match action {
        RefreshAction::Fail(e) => assert_eq!(e, RefreshError::NoInputData),
        _ => panic!("expected a failure"),
    }
}

#[test]
fn refresh_with_an_empty_store_and_no_files_fails() {
    let state = after_loading(vec![]);
    let (_, action) = refresh_step(state, listed(&[]));
    assert!(matches!(action, RefreshAction::Fail(RefreshError::NoInputData)));
}

#[test]
fn refresh_without_files_returns_the_store_and_writes_nothing() {
    let stored = vec![
        entry("compiti", "2025-01-16", "Italiano", "later"),
        entry("compiti", "2025-01-15", "Matematica", "earlier"),
    ];
    let state = after_loading(clone_entries(&stored));
    let (state, action) = refresh_step(state, listed(&["other_file.xls"]));
    assert!(matches!(state, RefreshState::Finished));
    match action {
        RefreshAction::Succeed(entries) => assert_eq!(entries, stored),
        _ => panic!("expected success"),
    }
}

#[test]
fn refresh_with_a_malformed_store_fails_at_once() {
    let (state, _) = refresh_start();
    let (state, action) = refresh_step(state, RefreshEvent::StoreMalformed("line 3".to_string()));
    assert!(matches!(state, RefreshState::Finished));
    match action {
        RefreshAction::Fail(e) => {
            assert_eq!(e, RefreshError::ParseError("line 3".to_string()));
            assert_eq!(e.message(), "Stored data is malformed: line 3");
        }
        _ => panic!("expected a failure"),
    }
}

#[test]
fn refresh_with_an_unreadable_store_fails_at_once() {
    let (state, _) = refresh_start();
    let (state, action) =
        refresh_step(state, RefreshEvent::StoreUnreadable("permission denied".to_string()));
    assert!(matches!(state, RefreshState::Finished));
    match action {
        RefreshAction::Fail(e) => {
            assert_eq!(e, RefreshError::PersistenceError("permission denied".to_string()));
            assert_eq!(e.message(), "Could not read or write the store: permission denied");
        }
        _ => panic!("expected a failure"),
    }
}

#[test]
fn refresh_parses_the_files_in_order_and_saves_the_merged_set() {
    let mut done = entry("compiti", "2025-01-16", "Italiano", "A");
    done.completed = true;
    let state = after_loading(vec![done.clone()]);

    let (state, action) = refresh_step(
        state,
        listed(&["export_b.xls", "readme.md", "export_a.xlsx", "export_c.xls"]),
    );
    match action {
        RefreshAction::ParseFile(name) => assert_eq!(name, "export_a.xlsx"),
        _ => panic!("expected a file to parse"),
    }

    let (state, action) = refresh_step(
        state,
        RefreshEvent::FileParsed(vec![entry("compiti", "2025-01-16", "Italiano", "A")]),
    );
    match action {
        RefreshAction::ParseFile(name) => assert_eq!(name, "export_b.xls"),
        _ => panic!("expected a file to parse"),
    }

    let (state, action) = refresh_step(state, RefreshEvent::FileFailed("not xml".to_string()));
    match action {
        RefreshAction::ParseFile(name) => assert_eq!(name, "export_c.xls"),
        _ => panic!("expected a file to parse"),
    }

    let (state, action) = refresh_step(
        state,
        RefreshEvent::FileParsed(vec![entry("compiti", "2025-01-15", "Matematica", "B")]),
    );
    let to_save = match action {
        RefreshAction::SaveStore(entries) => entries,
        _ => panic!("expected the store to be written"),
    };
    assert_eq!(to_save.len(), 2);
    assert_eq!(to_save[0].task, "B");
    assert_eq!(to_save[1], done);
    assert!(matches!(state, RefreshState::SavingStore { .. }));

    let (state, action) = refresh_step(state, RefreshEvent::StoreSaved);
    assert!(matches!(state, RefreshState::Finished));
    match action {
        RefreshAction::Succeed(entries) => assert_eq!(entries, to_save),
        _ => panic!("expected success"),
    }
}

#[test]
fn refresh_fails_when_the_store_cannot_be_written() {
    let state = after_loading(vec![]);
    let (state, _) = refresh_step(state, listed(&["export_a.xls"]));
    let (state, action) = refresh_step(
        state,
        RefreshEvent::FileParsed(vec![entry("compiti", "2025-01-15", "Matematica", "B")]),
    );
    assert!(matches!(action, RefreshAction::SaveStore(_)));
    let (state, action) = refresh_step(state, RefreshEvent::SaveFailed("disk full".to_string()));
    assert!(matches!(state, RefreshState::Finished));
    match action {
        RefreshAction::Fail(e) => {
            assert_eq!(e, RefreshError::PersistenceError("disk full".to_string()));
            assert_eq!(e.message(), "Could not read or write the store: disk full");
        }
        _ => panic!("expected a failure"),
    }
}

#[test]
fn refresh_with_only_failing_files_saves_the_stored_set() {
    let stored = vec![entry("compiti", "2025-01-15", "Matematica", "B")];
    let state = after_loading(clone_entries(&stored));
    let (state, _) = refresh_step(state, listed(&["export_a.xls"]));
    let (_, action) = refresh_step(state, RefreshEvent::FileFailed("broken".to_string()));
    match action {
        RefreshAction::SaveStore(entries) => assert_eq!(entries, stored),
        _ => panic!("expected the store to be written"),
    }
}

#[test]
fn events_that_are_not_awaited_change_nothing() {
    let (state, _) = refresh_start();
    let (state, action) = refresh_step(state, RefreshEvent::StoreSaved);
    assert!(matches!(state, RefreshState::LoadingStore));
    assert!(matches!(action, RefreshAction::Wait));
    let (state, action) = refresh_step(state, listed(&["export_a.xls"]));
    assert!(matches!(state, RefreshState::LoadingStore));
    assert!(matches!(action, RefreshAction::Wait));

    let state = after_loading(vec![]);
    let (state, action) = refresh_step(state, RefreshEvent::FileParsed(vec![]));
    assert!(matches!(state, RefreshState::ListingExports { .. }));
    assert!(matches!(action, RefreshAction::Wait));

    let (state, _) = refresh_step(state, listed(&["export_a.xls"]));
    let (state, action) = refresh_step(state, RefreshEvent::StoreMissing);
    assert!(matches!(state, RefreshState::ParsingExports { .. }));
    assert!(matches!(action, RefreshAction::Wait));

    let (state, _) = refresh_step(state, RefreshEvent::FileParsed(vec![]));
    let (state, action) = refresh_step(state, RefreshEvent::FileFailed("late".to_string()));
    assert!(matches!(state, RefreshState::SavingStore { .. }));
    assert!(matches!(action, RefreshAction::Wait));

    let (state, _) = refresh_step(state, RefreshEvent::StoreSaved);
    let (state, action) = refresh_step(state, RefreshEvent::StoreSaved);
    assert!(matches!(state, RefreshState::Finished));
    assert!(matches!(action, RefreshAction::Wait));
}

// ========== applying a refresh ==========

#[test]
fn test_refresh_handler_no_data() {
    let mut state = AppState::new(vec![], ".".to_string());
    let result = process_refresh(&mut state, process_all_exports(vec![], vec![]));
    assert_eq!(result.reply(), "ERROR"); // No data available
    assert!(state.entries.is_empty());
}

#[test]
fn test_refresh_handler_with_existing_json() {
    let stored = vec![entry("compiti", "2025-01-15", "MATEMATICA", "Task 1")];
    let mut state = AppState::new(vec![], ".".to_string());

    let result = process_refresh(&mut state, process_all_exports(stored, vec![]));

    assert_eq!(result.reply(), "OK");

    // Verify state was updated
    assert_eq!(state.entries.len(), 1);
}

#[test]
fn test_process_refresh_with_new_entries() {
    // Create initial state with no entries
    let mut state = AppState::new(vec![], "out".to_string());

    let entries = vec![entry("compiti", "2025-01-15", "MATEMATICA", "Task 1")];
    let result = process_refresh(&mut state, process_all_exports(entries, vec![]));

    match result {
        RefreshResult::Updated { old_count, new_count } => {
            assert_eq!(old_count, 0);
            assert_eq!(new_count, 1);
        }
        _ => panic!("Expected Updated result, got {:?}", result),
    }

    // Verify state was updated
    assert_eq!(state.entries.len(), 1);
}

#[test]
fn test_process_refresh_no_change() {
    let entries = vec![entry("compiti", "2025-01-15", "MATEMATICA", "Task 1")];

    // Create state with same entries
    let mut state = AppState::new(entries.clone(), "out".to_string());

    let result = process_refresh(&mut state, process_all_exports(entries, vec![]));

    match result {
        RefreshResult::NoChange { count } => {
            assert_eq!(count, 1);
        }
        _ => panic!("Expected NoChange result, got {:?}", result),
    }
}

#[test]
fn test_process_refresh_error() {
    let mut state = AppState::new(vec![], "out".to_string());

    let result = process_refresh(&mut state, process_all_exports(vec![], vec![]));

    match result {
        RefreshResult::Error(msg) => {
            assert!(!msg.is_empty());
        }
        _ => panic!("Expected Error result, got {:?}", result),
    }
}

#[test]
fn test_process_refresh_decrease_entries() {
    // Start with 2 entries
    let initial_entries = vec![
        entry("compiti", "2025-01-15", "MATEMATICA", "Task 1"),
        entry("nota", "2025-01-16", "ITALIANO", "Task 2"),
    ];
    let mut state = AppState::new(initial_entries, "out".to_string());

    // the store has only 1 entry
    let new_entries = vec![entry("compiti", "2025-01-15", "MATEMATICA", "Task 1")];
    let result = process_refresh(&mut state, process_all_exports(new_entries, vec![]));

    match result {
        RefreshResult::Updated { old_count, new_count } => {
            assert_eq!(old_count, 2);
            assert_eq!(new_count, 1);
        }
        _ => panic!("Expected Updated result, got {:?}", result),
    }
}

#[test]
fn a_failed_refresh_leaves_the_served_set_intact() {
    let served = vec![
        entry("compiti", "2025-01-15", "MATEMATICA", "Task 1"),
        entry("nota", "2025-01-16", "ITALIANO", "Task 2"),
    ];
    let mut state = AppState::new(clone_entries(&served), "out".to_string());
    let result = process_refresh(
        &mut state,
        Err(RefreshError::PersistenceError("read-only".to_string())),
    );
    assert_eq!(
        result,
        RefreshResult::Error("Could not read or write the store: read-only".to_string())
    );
    assert_eq!(state.entries, served);
    assert_eq!(state.output_dir, "out");
}
