use rust_extensions::background_executor::thread_triggers::ThreadTriggers;

#[test]
fn the_first_trigger_of_a_thread_starts_its_reader() {
    let mut triggers: ThreadTriggers<u64> = ThreadTriggers::new();
    assert_eq!(triggers.working_threads_amount(), 0);
    assert!(triggers.trigger(7));
    assert!(!triggers.trigger(7));
    assert!(triggers.trigger(8));
    assert_eq!(triggers.working_threads_amount(), 2);
    assert_eq!(triggers.pending(&7), 2);
    assert_eq!(triggers.pending(&8), 1);
    assert_eq!(triggers.pending(&9), 0);
}

#[test]
fn a_thread_is_removed_when_its_triggers_are_drained() {
    let mut triggers: ThreadTriggers<u32> = ThreadTriggers::new();
    triggers.trigger(1);
    triggers.trigger(1);
    triggers.trigger(1);
    assert!(!triggers.consume_trigger(&1));
    assert!(!triggers.consume_trigger(&1));
    assert!(triggers.consume_trigger(&1));
    assert_eq!(triggers.working_threads_amount(), 0);
    assert!(triggers.trigger(1));
}

#[test]
fn consuming_an_unknown_thread_reports_it_drained() {
    let mut triggers: ThreadTriggers<i64> = ThreadTriggers::new();
    triggers.trigger(-3);
    assert!(triggers.consume_trigger(&5));
    assert_eq!(triggers.pending(&-3), 1);
}
