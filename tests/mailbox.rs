use broadway::mailbox::{Class, QueueState, Scheduler, Step};

const OPEN_EMPTY: QueueState = QueueState { empty: true, closed: false };
const OPEN_FULL: QueueState = QueueState { empty: false, closed: false };
const CLOSED_EMPTY: QueueState = QueueState { empty: true, closed: true };
const CLOSED_FULL: QueueState = QueueState { empty: false, closed: true };

/// Plays one turn in which both classes are ready whenever they race.
fn turn(s: &mut Scheduler, shared: QueueState, exclusive: QueueState) -> Option<Class> {
    let winner = match s.next_step(shared, exclusive) {
        Step::Race { shared_first: true } => Class::Shared,
        Step::Race { shared_first: false } => Class::Exclusive,
        Step::Await(c) => c,
        Step::Exit => return None,
    };
    s.resolved(winner);
    s.batch_done();
    Some(winner)
}

#[test]
fn first_race_favours_exclusive() {
    let mut s = Scheduler::new();
    assert_eq!(s.next_step(OPEN_FULL, OPEN_FULL), Step::Race { shared_first: false });
}

#[test]
fn races_alternate_priority() {
    let mut s = Scheduler::new();
    let winners: Vec<Option<Class>> = (0..6).map(|_| turn(&mut s, OPEN_FULL, OPEN_FULL)).collect();
    assert_eq!(
        winners,
        vec![
            Some(Class::Exclusive),
            Some(Class::Shared),
            Some(Class::Exclusive),
            Some(Class::Shared),
            Some(Class::Exclusive),
            Some(Class::Shared)
        ]
    );
}

#[test]
fn open_empty_queues_still_race() {
    let mut s = Scheduler::new();
    assert_eq!(s.next_step(OPEN_EMPTY, OPEN_EMPTY), Step::Race { shared_first: false });
}

#[test]
fn a_lost_race_keeps_the_attempt() {
    let mut s = Scheduler::new();
    assert_eq!(s.next_step(OPEN_FULL, OPEN_FULL), Step::Race { shared_first: false });
    s.resolved(Class::Exclusive);
    s.batch_done();
    // The exclusive queue closed meanwhile; the shared attempt is still outstanding.
    assert_eq!(s.next_step(CLOSED_EMPTY, CLOSED_EMPTY), Step::Await(Class::Shared));
    s.resolved(Class::Shared);
    s.batch_done();
    assert_eq!(s.next_step(CLOSED_EMPTY, CLOSED_EMPTY), Step::Exit);
}

#[test]
fn single_open_queue_is_awaited_directly() {
    let mut s = Scheduler::new();
    assert_eq!(s.next_step(CLOSED_EMPTY, OPEN_EMPTY), Step::Await(Class::Exclusive));
    s.resolved(Class::Exclusive);
    s.batch_done();
    assert_eq!(s.next_step(CLOSED_FULL, CLOSED_EMPTY), Step::Await(Class::Shared));
}

#[test]
fn closed_drained_queues_end_the_loop() {
    let mut s = Scheduler::new();
    assert_eq!(s.next_step(CLOSED_EMPTY, CLOSED_EMPTY), Step::Exit);
}

#[test]
fn single_awaits_do_not_flip_priority() {
    let mut s = Scheduler::new();
    assert_eq!(turn(&mut s, CLOSED_FULL, CLOSED_EMPTY), Some(Class::Shared));
    assert_eq!(s.next_step(OPEN_FULL, OPEN_FULL), Step::Race { shared_first: false });
}

#[test]
fn ready_class_never_waits_two_batches() {
    // Shared calls arrive only now and then; exclusive calls are always ready.
    let mut s = Scheduler::new();
    let shared_ready = [false, true, true, false, true, true, true, false];
    let mut last_exclusive = 0;
    for (i, ready) in shared_ready.iter().enumerate() {
        let step = s.next_step(OPEN_FULL, OPEN_FULL);
        let winner = match step {
            Step::Race { shared_first: true } if *ready => Class::Shared,
            Step::Race { shared_first: true } => Class::Exclusive,
            Step::Race { shared_first: false } => Class::Exclusive,
            other => panic!("unexpected step {:?}", other),
        };
        if winner == Class::Exclusive {
            last_exclusive = i;
        }
        assert!(i - last_exclusive <= 1);
        s.resolved(winner);
        s.batch_done();
    }
}

#[test]
fn handler_counts_follow_the_batch() {
    let mut s = Scheduler::new();
    assert_eq!(s.next_step(OPEN_FULL, CLOSED_EMPTY), Step::Await(Class::Shared));
    s.resolved(Class::Shared);
    assert!(s.begin_shared());
    assert!(s.begin_shared());
    assert!(!s.begin_exclusive());
    s.end_shared();
    s.end_shared();
    s.batch_done();
    assert_eq!(s.next_step(CLOSED_EMPTY, OPEN_FULL), Step::Await(Class::Exclusive));
    s.resolved(Class::Exclusive);
    assert!(s.begin_exclusive());
    assert!(!s.begin_exclusive());
    assert!(!s.begin_shared());
    s.end_exclusive();
    assert!(s.begin_exclusive());
    s.end_exclusive();
    s.batch_done();
    assert_eq!(s.next_step(CLOSED_EMPTY, CLOSED_EMPTY), Step::Exit);
}

#[test]
fn no_handler_starts_outside_a_batch() {
    let mut s = Scheduler::new();
    assert!(!s.begin_shared());
    assert!(!s.begin_exclusive());
}
