use vstd::prelude::*;

verus! {

/// The two kinds of call that an actor accepts.
#[derive(Clone, Copy, Debug, PartialEq, Eq, Structural)]
pub enum Class {
    /// Read-only calls, run concurrently with one another.
    Shared,
    /// Mutating calls, run one at a time with nothing else.
    Exclusive,
}

/// What the loop observes of one queue before it arms a receive attempt.
#[derive(Clone, Copy, Debug)]
pub struct QueueState {
    pub empty: bool,
    pub closed: bool,
}

/// What the mailbox loop does next.
#[derive(Clone, Copy, Debug, PartialEq, Eq, Structural)]
pub enum Step {
    /// Race the two outstanding receive attempts; the one named first wins
    /// when both are ready.
    Race { shared_first: bool },
    /// Await the one outstanding receive attempt, of this class.
    Await(Class),
    /// Both queues are closed and drained: the loop ends.
    Exit,
}

/// The mathematical value of a scheduler.
pub struct SchedulerView {
    /// Whether the next race favours shared calls.
    pub priority: bool,
    /// Whether a receive attempt on the shared queue is outstanding.
    pub shared_armed: bool,
    /// Whether a receive attempt on the exclusive queue is outstanding.
    pub exclusive_armed: bool,
    /// The class whose batch is running, if any.
    pub running: Option<Class>,
    /// How many shared handlers are running.
    pub shared_active: nat,
    /// Whether an exclusive handler is running.
    pub exclusive_active: bool,
}

pub open spec fn armed(s: SchedulerView, c: Class) -> bool {
    match c {
        Class::Shared => s.shared_armed,
        Class::Exclusive => s.exclusive_armed,
    }
}

/// A queue can still deliver something unless it is both closed and empty.
pub open spec fn may_receive(q: QueueState) -> bool {
    !q.empty || !q.closed
}

/// A receive attempt is armed on each queue that has none and can still deliver.
pub open spec fn arm(s: SchedulerView, shared: QueueState, exclusive: QueueState) -> SchedulerView {
    SchedulerView {
        shared_armed: s.shared_armed || may_receive(shared),
        exclusive_armed: s.exclusive_armed || may_receive(exclusive),
        ..s
    }
}

/// The step that follows from the outstanding attempts.
pub open spec fn step_of(s: SchedulerView) -> Step {
    if s.shared_armed && s.exclusive_armed {
        Step::Race { shared_first: s.priority }
    } else if s.shared_armed {
        Step::Await(Class::Shared)
    } else if s.exclusive_armed {
        Step::Await(Class::Exclusive)
    } else {
        Step::Exit
    }
}

/// The attempt of `winner` has delivered: its batch starts, and after a race
/// the priority passes to the other class.
pub open spec fn resolve(s: SchedulerView, winner: Class) -> SchedulerView {
    let raced = s.shared_armed && s.exclusive_armed;
    SchedulerView {
        priority: if raced {
            !s.priority
        } else {
            s.priority
        },
        shared_armed: s.shared_armed && winner != Class::Shared,
        exclusive_armed: s.exclusive_armed && winner != Class::Exclusive,
        running: Some(winner),
        ..s
    }
}

/// The batch has finished.
pub open spec fn finish(s: SchedulerView) -> SchedulerView {
    SchedulerView { running: None, ..s }
}

/// The winner of a two-way race in which the first named side is polled
/// first: it wins whenever it is ready.
pub open spec fn select_winner(shared_first: bool, shared_ready: bool, exclusive_ready: bool) -> Class {
    if shared_first {
        if shared_ready {
            Class::Shared
        } else {
            Class::Exclusive
        }
    } else {
        if exclusive_ready {
            Class::Exclusive
        } else {
            Class::Shared
        }
    }
}

/// One turn of the loop: arm, step, let the ready attempts decide, run the batch.
pub open spec fn round(
    s: SchedulerView,
    shared: QueueState,
    exclusive: QueueState,
    shared_ready: bool,
    exclusive_ready: bool,
) -> (SchedulerView, Class) {
    let a = arm(s, shared, exclusive);
    let w = match step_of(a) {
        Step::Race { shared_first } => select_winner(shared_first, shared_ready, exclusive_ready),
        Step::Await(c) => c,
        Step::Exit => Class::Shared,
    };
    (finish(resolve(a, w)), w)
}

pub open spec fn queue_of(c: Class, shared: QueueState, exclusive: QueueState) -> QueueState {
    match c {
        Class::Shared => shared,
        Class::Exclusive => exclusive,
    }
}

pub open spec fn ready_of(c: Class, shared_ready: bool, exclusive_ready: bool) -> bool {
    match c {
        Class::Shared => shared_ready,
        Class::Exclusive => exclusive_ready,
    }
}

/// No class waits longer than one batch of the other: over two turns in
/// which a class has calls queued and ready, whatever arrives on the other
/// queue, that class's batch runs at least once.
pub proof fn lemma_no_starvation(
    s: SchedulerView,
    c: Class,
    shared1: QueueState,
    exclusive1: QueueState,
    shared_ready1: bool,
    exclusive_ready1: bool,
    shared2: QueueState,
    exclusive2: QueueState,
    shared_ready2: bool,
    exclusive_ready2: bool,
)
    requires
        !queue_of(c, shared1, exclusive1).empty,
        !queue_of(c, shared2, exclusive2).empty,
        ready_of(c, shared_ready1, exclusive_ready1),
        ready_of(c, shared_ready2, exclusive_ready2),
    ensures
        ({
            let (s1, w1) = round(s, shared1, exclusive1, shared_ready1, exclusive_ready1);
            let (s2, w2) = round(s1, shared2, exclusive2, shared_ready2, exclusive_ready2);
            w1 == c || w2 == c
        }),
{
}

/// The batches of the two classes never overlap, and an exclusive handler
/// runs alone.
pub open spec fn exclusive_alone(s: SchedulerView) -> bool {
    &&& s.exclusive_active ==> s.running == Some(Class::Exclusive) && s.shared_active == 0
    &&& s.shared_active > 0 ==> s.running == Some(Class::Shared)
}

/// A shared handler may start only during a shared batch, with no
/// exclusive handler running, and while the count of running shared
/// handlers can still grow.
pub open spec fn begin_shared_spec(s: SchedulerView) -> (SchedulerView, bool) {
    if s.running == Some(Class::Shared) && !s.exclusive_active && s.shared_active < u64::MAX {
        (SchedulerView { shared_active: s.shared_active + 1, ..s }, true)
    } else {
        (s, false)
    }
}

/// An exclusive handler may start only during an exclusive batch, with no
/// other handler of either class running.
pub open spec fn begin_exclusive_spec(s: SchedulerView) -> (SchedulerView, bool) {
    if s.running == Some(Class::Exclusive) && !s.exclusive_active && s.shared_active == 0 {
        (SchedulerView { exclusive_active: true, ..s }, true)
    } else {
        (s, false)
    }
}

/// While an exclusive handler runs, no other handler of either class is
/// let in; while shared handlers run, no exclusive handler is let in; and
/// a running handler always belongs to the running batch's class.
pub proof fn lemma_mutual_exclusion(s: SchedulerView)
    requires
        exclusive_alone(s),
    ensures
        s.exclusive_active ==> !begin_exclusive_spec(s).1 && !begin_shared_spec(s).1,
        s.shared_active > 0 ==> !begin_exclusive_spec(s).1,
        s.exclusive_active ==> s.shared_active == 0 && s.running == Some(Class::Exclusive),
        s.shared_active > 0 ==> s.running == Some(Class::Shared),
{
}

/// The decisions of one actor's mailbox loop: which receive attempts are
/// outstanding, which class the next race favours, and which handlers run.
pub struct Scheduler {
    priority: bool,
    shared_armed: bool,
    exclusive_armed: bool,
    running: Option<Class>,
    shared_active: u64,
    exclusive_active: bool,
}

impl View for Scheduler {
    type V = SchedulerView;

    closed spec fn view(&self) -> SchedulerView {
        SchedulerView {
            priority: self.priority,
            shared_armed: self.shared_armed,
            exclusive_armed: self.exclusive_armed,
            running: self.running,
            shared_active: self.shared_active as nat,
            exclusive_active: self.exclusive_active,
        }
    }
}

impl Scheduler {
    pub open spec fn wf(&self) -> bool {
        exclusive_alone(self@)
    }

    /// A scheduler with no attempt outstanding and no batch running, whose
    /// first race favours exclusive calls.
    pub fn new() -> (r: Scheduler)
        ensures
            r.wf(),
            r@ == (SchedulerView {
                priority: false,
                shared_armed: false,
                exclusive_armed: false,
                running: None,
                shared_active: 0,
                exclusive_active: false,
            }),
    {
        Scheduler {
            priority: false,
            shared_armed: false,
            exclusive_armed: false,
            running: None,
            shared_active: 0,
            exclusive_active: false,
        }
    }

    /// Arms the receive attempts that the queues allow and says what to do next.
    pub fn next_step(&mut self, shared: QueueState, exclusive: QueueState) -> (r: Step)
        requires
            old(self).wf(),
            old(self)@.running is None,
        ensures
            final(self).wf(),
            final(self)@ == arm(old(self)@, shared, exclusive),
            r == step_of(final(self)@),
    {
        if !self.shared_armed && (!shared.empty || !shared.closed) {
            self.shared_armed = true;
        }
        if !self.exclusive_armed && (!exclusive.empty || !exclusive.closed) {
            self.exclusive_armed = true;
        }
        if self.shared_armed && self.exclusive_armed {
            Step::Race { shared_first: self.priority }
        } else if self.shared_armed {
            Step::Await(Class::Shared)
        } else if self.exclusive_armed {
            Step::Await(Class::Exclusive)
        } else {
            Step::Exit
        }
    }

    /// The outstanding attempt of `winner` has delivered; its batch starts.
    pub fn resolved(&mut self, winner: Class)
        requires
            old(self).wf(),
            old(self)@.running is None,
            armed(old(self)@, winner),
        ensures
            final(self).wf(),
            final(self)@ == resolve(old(self)@, winner),
    {
        if self.shared_armed && self.exclusive_armed {
            self.priority = !self.priority;
        }
        match winner {
            Class::Shared => self.shared_armed = false,
            Class::Exclusive => self.exclusive_armed = false,
        }
        self.running = Some(winner);
    }

    /// Lets a shared handler of the running shared batch start, if
    /// `begin_shared_spec` allows it; says whether it did.
    pub fn begin_shared(&mut self) -> (r: bool)
        requires
            old(self).wf(),
        ensures
            final(self).wf(),
            (final(self)@, r) == begin_shared_spec(old(self)@),
    {
        if self.running == Some(Class::Shared) && !self.exclusive_active && self.shared_active < u64::MAX {
            self.shared_active = self.shared_active + 1;
            true
        } else {
            false
        }
    }

    /// A shared handler has finished.
    pub fn end_shared(&mut self)
        requires
            old(self).wf(),
            old(self)@.shared_active > 0,
        ensures
            final(self).wf(),
            final(self)@ == (SchedulerView { shared_active: (old(self)@.shared_active - 1) as nat, ..old(self)@ }),
    {
        self.shared_active = self.shared_active - 1;
    }

    /// Lets the next handler of the running exclusive batch start, if
    /// `begin_exclusive_spec` allows it; says whether it did.
    pub fn begin_exclusive(&mut self) -> (r: bool)
        requires
            old(self).wf(),
        ensures
            final(self).wf(),
            (final(self)@, r) == begin_exclusive_spec(old(self)@),
    {
        if self.running == Some(Class::Exclusive) && !self.exclusive_active && self.shared_active == 0 {
            self.exclusive_active = true;
            true
        } else {
            false
        }
    }

    /// The exclusive handler has finished.
    pub fn end_exclusive(&mut self)
        requires
            old(self).wf(),
            old(self)@.exclusive_active,
        ensures
            final(self).wf(),
            final(self)@ == (SchedulerView { exclusive_active: false, ..old(self)@ }),
    {
        self.exclusive_active = false;
    }

    /// The running batch has finished: every handler of it has returned.
    pub fn batch_done(&mut self)
        requires
            old(self).wf(),
            old(self)@.shared_active == 0,
            !old(self)@.exclusive_active,
        ensures
            final(self).wf(),
            final(self)@ == finish(old(self)@),
    {
        self.running = None;
    }
}

} // verus!
