use workfile_backupper::utilities::CallLog;

#[test]
fn call_log_records() {
    let mut log: CallLog<i32> = CallLog::new();
    assert_eq!(log.len(), 0);
    log.push(5);
    assert_eq!(log.len(), 1);
    assert_eq!(log.last(), 5);
    log.push(7);
    assert_eq!(log.last(), 7);
    let copy = log.clone();
    assert_eq!(copy.len(), 2);
}
