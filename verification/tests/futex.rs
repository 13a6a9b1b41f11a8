use starry::errno::SysError;
use starry::futex::{
    futex_command, futex_requeue_result, futex_value_check, futex_wake_continue, FutexCommand, FutexTable,
    FUTEX_CMP_REQUEUE, FUTEX_PRIVATE_FLAG, FUTEX_REQUEUE, FUTEX_WAIT, FUTEX_WAKE,
};

#[test]
fn commands() {
    assert_eq!(futex_command(FUTEX_WAIT, 5, 0, 0), Ok(FutexCommand::Wait { expected: 5 }));
    assert_eq!(futex_command(FUTEX_WAKE | FUTEX_PRIVATE_FLAG, 3, 0, 0), Ok(FutexCommand::Wake { max_wake: 3 }));
    assert_eq!(
        futex_command(FUTEX_REQUEUE, 1, 0x1_0000_0007, 0),
        Ok(FutexCommand::Requeue { max_wake: 1, max_requeue: 7, expected: None })
    );
    assert_eq!(
        futex_command(FUTEX_CMP_REQUEUE, 1, 2, 9),
        Ok(FutexCommand::Requeue { max_wake: 1, max_requeue: 2, expected: Some(9) })
    );
    assert_eq!(futex_command(5, 1, 2, 9), Err(SysError::ENOSYS));
}

#[test]
fn value_checks_and_counts() {
    assert_eq!(futex_value_check(3, Some(3)), Ok(()));
    assert_eq!(futex_value_check(3, Some(4)), Err(SysError::EAGAIN));
    assert_eq!(futex_value_check(3, None), Ok(()));
    assert!(futex_wake_continue(0, 2, true));
    assert!(!futex_wake_continue(2, 2, true));
    assert!(!futex_wake_continue(0, 2, false));
    assert_eq!(futex_requeue_result(2, 2, 5), 7);
    assert_eq!(futex_requeue_result(1, 2, 5), 1);
}

#[test]
fn table() {
    let mut t: FutexTable<&str> = FutexTable::new();
    assert_eq!(t.get(0x10), None);
    t.get_or_insert(0x10, "q1");
    t.get_or_insert(0x10, "q2");
    assert_eq!(t.get(0x10), Some(&"q1"));
    t.release(0x10, false);
    assert_eq!(t.get(0x10), Some(&"q1"));
    t.release(0x10, true);
    assert_eq!(t.get(0x10), None);
}
