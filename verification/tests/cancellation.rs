use soundome::server::utils::cancellation::CancellationRegistry;

#[test]
fn registered_tasks_start_uncancelled() {
    let mut r = CancellationRegistry::new();
    let flag = r.register(1);
    assert!(!r.is_set(flag));
    assert!(!r.is_cancelled(1));
    assert!(!r.is_cancelled(2));
}

#[test]
fn a_cancel_reaches_the_worker_and_survives_removal() {
    let mut r = CancellationRegistry::new();
    let one = r.register(1);
    let two = r.register(2);
    assert!(r.cancel(1));
    assert!(r.is_set(one));
    assert!(r.is_cancelled(1));
    assert!(!r.is_set(two));
    assert!(!r.is_cancelled(2));
    assert!(r.cancel(1));
    assert!(r.is_set(one));
    r.remove(1);
    assert!(!r.is_cancelled(1));
    assert!(!r.cancel(1));
    assert!(r.is_set(one));
}

#[test]
fn cancelling_an_unknown_task_changes_nothing() {
    let mut r = CancellationRegistry::new();
    assert!(!r.cancel(9));
    assert!(!r.is_cancelled(9));
    let flag = r.register(9);
    assert!(!r.is_set(flag));
    assert!(!r.is_cancelled(9));
}

#[test]
fn registering_again_detaches_the_earlier_flag() {
    let mut r = CancellationRegistry::new();
    let first = r.register(3);
    r.cancel(3);
    let second = r.register(3);
    assert!(r.is_set(first));
    assert!(!r.is_set(second));
    assert!(!r.is_cancelled(3));

    let mut r = CancellationRegistry::new();
    let first = r.register(4);
    let second = r.register(4);
    assert!(r.cancel(4));
    assert!(!r.is_set(first));
    assert!(r.is_set(second));
}
