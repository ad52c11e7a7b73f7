use workfile_backupper::services::file_manager::{must_wait_for_slot, ActiveFiles, MockFileManager, TaskSlots, MAX_CONCURRENCY};

/// Registering, skipping a registered file, releasing.
#[test]
fn active_files_bookkeeping() {
    let mut active = ActiveFiles::new();
    assert!(active.register("test1.txt"));
    assert_eq!(active.len(), 1);
    assert!(!active.register("test1.txt"));
    assert_eq!(active.len(), 1);
    assert!(active.register("test2.txt"));
    assert_eq!(active.len(), 2);
    assert!(active.contains("test1.txt") && active.contains("test2.txt"));
    active.release("test1.txt");
    active.release("test2.txt");
    assert_eq!(active.len(), 0);
    assert!(active.register("test3.txt"));
    assert_eq!(active.len(), 1);
    assert!(active.contains("test3.txt"));
    active.release("never.txt");
    assert_eq!(active.len(), 1);
}

#[test]
fn concurrency_limit() {
    assert_eq!(MAX_CONCURRENCY, 8);
    assert!(!must_wait_for_slot(7));
    assert!(must_wait_for_slot(8));
    assert!(must_wait_for_slot(9));
}

#[test]
fn mock_manager_records_paths() {
    let mut m = MockFileManager::new();
    m.execute("/s/a.txt");
    m.execute("/s/b.txt");
    assert_eq!(m.paths, vec!["/s/a.txt".to_string(), "/s/b.txt".to_string()]);
}

/// The slot count follows the tasks: at the limit a task is waited for
/// before the next starts, so the count never passes the limit.
#[test]
fn task_slots_stay_within_the_limit() {
    let mut slots = TaskSlots::new();
    for _ in 0..MAX_CONCURRENCY {
        assert!(!slots.start());
    }
    assert_eq!(slots.running(), MAX_CONCURRENCY);
    assert!(slots.start());
    assert_eq!(slots.running(), MAX_CONCURRENCY);
    slots.clear();
    assert_eq!(slots.running(), 0);
}
