use ir_manager::error::{ManagerError, ManagerResult};
use ir_manager::journal::{
    date_and_time, get_logs, get_strategy_logs, insert_journal_collection, journal_cleanup, JournalCollection,
    JournalEntry, LogType, StableJournalCollection,
};

/// 14-11-2023 22:13:20 UTC, in nanoseconds.
const NOW_NS: u64 = 1_700_000_000_000_000_000;

#[test]
fn test_journal_collection_open() {
    let strategy_id = Some(42);
    let collection = JournalCollection::open(strategy_id, NOW_NS);

    assert_eq!(collection.strategy, strategy_id);
    assert!(!collection.start_date_and_time.is_empty());
    assert!(collection.end_date_and_time.is_empty());
    assert!(collection.entries.is_empty());
}

#[test]
fn test_append_note() {
    let mut collection = JournalCollection::open(None, NOW_NS);
    let log_type = LogType::Info;

    collection.append_note(ManagerResult::Ok(()), log_type.clone(), "Test note", NOW_NS);

    assert_eq!(collection.entries.len(), 1);
    let entry = &collection.entries[0];

    assert_eq!(entry.log_type, log_type);
    assert_eq!(entry.note.as_deref(), Some("Test note"));
    assert!(!entry.date_and_time.is_empty());
}

#[test]
fn test_close_sets_end_time_and_calls_insert() {
    let mut collection = JournalCollection::open(Some(1), NOW_NS);
    let log_type = LogType::ExecutionResult;

    collection.append_note(ManagerResult::Ok(()), log_type, "Finalizing", NOW_NS);

    let closed = collection.close(NOW_NS);

    assert!(!closed.end_date_and_time.is_empty());
    let mut journal = Vec::new();
    insert_journal_collection(&mut journal, closed);
    assert_eq!(journal.len(), 1);
}

#[test]
fn test_journal_entry_new() {
    let log_type = LogType::ProviderReputationChange;
    let note = "Reputation increased";

    let entry = JournalEntry::new(ManagerResult::Ok(()), log_type.clone(), Some(note.to_string()), NOW_NS);

    assert_eq!(entry.log_type, log_type);
    assert_eq!(entry.note.as_deref(), Some(note));
    assert!(!entry.date_and_time.is_empty());
}

fn entry(log_type: LogType, note: Option<&str>) -> JournalEntry {
    JournalEntry::new(ManagerResult::Ok(()), log_type, note.map(|n| n.to_string()), NOW_NS)
}

fn collection(strategy: Option<u32>, entries: Vec<JournalEntry>) -> StableJournalCollection {
    StableJournalCollection {
        start_date_and_time: "01-01-2024 10:00:00".to_string(),
        end_date_and_time: "01-01-2024 10:05:00".to_string(),
        strategy,
        entries,
    }
}

#[test]
fn test_stable_journal_collection_reputation_change() {
    let reputation_entry = JournalEntry::new(
        ManagerResult::Ok(()),
        LogType::ProviderReputationChange,
        Some("Reputation update".to_string()),
        NOW_NS,
    );

    let collection = StableJournalCollection {
        start_date_and_time: "01-01-2024 10:00:00".to_string(),
        end_date_and_time: "01-01-2024 10:05:00".to_string(),
        strategy: None,
        entries: vec![reputation_entry],
    };

    assert!(collection.is_reputation_change());
}

#[test]
fn test_stable_journal_collection_not_reputation_change() {
    let other_entry = JournalEntry::new(ManagerResult::Ok(()), LogType::Info, Some("Info log".to_string()), NOW_NS);

    let collection = StableJournalCollection {
        start_date_and_time: "01-01-2024 10:00:00".to_string(),
        end_date_and_time: "01-01-2024 10:05:00".to_string(),
        strategy: None,
        entries: vec![other_entry],
    };

    assert!(!collection.is_reputation_change());
}

#[test]
fn test_is_reputation_change_empty_entries() {
    let collection = StableJournalCollection {
        start_date_and_time: "01-01-2024 10:00:00".to_string(),
        end_date_and_time: "01-01-2024 10:10:00".to_string(),
        strategy: None,
        entries: vec![],
    };

    assert!(!collection.is_reputation_change());
}

#[test]
fn test_is_reputation_change_multiple_entries() {
    let entry1 = JournalEntry::new(
        ManagerResult::Ok(()),
        LogType::ProviderReputationChange,
        Some("Reputation update".to_string()),
        NOW_NS,
    );

    let entry2 = JournalEntry::new(ManagerResult::Ok(()), LogType::ExecutionResult, None, NOW_NS);

    let collection = StableJournalCollection {
        start_date_and_time: "01-01-2024 10:00:00".to_string(),
        end_date_and_time: "01-01-2024 10:15:00".to_string(),
        strategy: None,
        entries: vec![entry1, entry2],
    };

    assert!(!collection.is_reputation_change());
}

#[test]
fn date_and_time_formats_utc() {
    assert_eq!(date_and_time(NOW_NS), "14-11-2023 22:13:20");
    assert_eq!(date_and_time(0), "01-01-1970 00:00:00");
}

#[test]
fn cleanup_drops_reputation_changes_and_keeps_the_latest_300() {
    let mut journal = Vec::new();
    for i in 0..400u32 {
        journal.push(collection(Some(i), vec![entry(LogType::Info, Some("info"))]));
        journal.push(collection(None, vec![entry(LogType::ProviderReputationChange, Some("rep"))]));
    }
    let cleaned = journal_cleanup(journal);
    assert_eq!(cleaned.len(), 300);
    assert!(cleaned.iter().all(|c| !c.is_reputation_change()));
    assert_eq!(cleaned[0].strategy, Some(100));
    assert_eq!(cleaned[299].strategy, Some(399));
}

#[test]
fn cleanup_keeps_a_small_journal_without_reputation_changes() {
    let journal = vec![
        collection(Some(1), vec![entry(LogType::Info, None)]),
        collection(Some(2), vec![entry(LogType::RateAdjustment, None)]),
    ];
    let cleaned = journal_cleanup(journal);
    assert_eq!(cleaned.len(), 2);
    assert_eq!(cleaned[0].strategy, Some(1));
    assert_eq!(cleaned[1].strategy, Some(2));
}

#[test]
fn logs_are_the_most_recent_collections() {
    let journal: Vec<StableJournalCollection> =
        (0..5u32).map(|i| collection(Some(i % 2), vec![entry(LogType::Info, None)])).collect();
    let logs = get_logs(&journal, 2);
    assert_eq!(logs.len(), 2);
    assert_eq!(logs[0].strategy, Some(1));
    assert_eq!(logs[1].strategy, Some(0));
    assert_eq!(get_logs(&journal, 10).len(), 5);
    let strategy_logs = get_strategy_logs(&journal, 2, 1);
    assert_eq!(strategy_logs.len(), 2);
    assert!(strategy_logs.iter().all(|c| c.strategy == Some(1)));
}

#[test]
fn error_entries_are_kept() {
    let mut collection = JournalCollection::open(None, NOW_NS);
    collection.append_note(Err(ManagerError::Locked), LogType::ExecutionResult, "failed", NOW_NS);
    assert!(matches!(collection.entries[0].entry, Err(ManagerError::Locked)));
}

#[test]
fn cleaning_up_twice_changes_nothing_more() {
    let mut journal = Vec::new();
    for i in 0..350u32 {
        journal.push(collection(Some(i), vec![entry(LogType::Info, None)]));
    }
    let once = journal_cleanup(journal);
    let strategies: Vec<Option<u32>> = once.iter().map(|c| c.strategy).collect();
    let twice = journal_cleanup(once);
    assert_eq!(twice.iter().map(|c| c.strategy).collect::<Vec<_>>(), strategies);
}
