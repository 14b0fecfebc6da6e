use vstd::prelude::*;
use crate::message::{AckerCommand, ExecutorCommand, Message, Outcome, Verdict};

verus! {

/// The abstract state of an executor's permit pool.
///
/// Each admitted message is given a ticket, the number of messages admitted
/// before it. A ticket is in flight while its permit is held; once the task ends,
/// its permit is released and the ticket is appended to the log of settlement
/// decisions.
pub ghost struct PoolView {
    /// The concurrency ceiling.
    pub max: nat,
    /// How many messages have been admitted.
    pub admitted: nat,
    /// The tickets whose permit is held.
    pub in_flight: Set<u64>,
    /// The tickets whose settlement decision was emitted, in order of emission.
    pub emitted: Seq<u64>,
}

impl PoolView {
    /// The pool's invariant: every admitted ticket is either in flight or has had
    /// exactly one decision, never both, and no more permits are held than the
    /// ceiling allows.
    pub open spec fn inv(self) -> bool {
        &&& self.in_flight.finite()
        &&& self.in_flight.len() <= self.max
        &&& self.emitted.no_duplicates()
        &&& self.emitted.len() + self.in_flight.len() == self.admitted
        &&& forall|t: u64| #[trigger] self.in_flight.contains(t) ==> (t as nat) < self.admitted
        &&& forall|t: u64| #[trigger] self.in_flight.contains(t) ==> !self.emitted.contains(t)
        &&& forall|i: int| 0 <= i < self.emitted.len() ==> (#[trigger] self.emitted[i] as nat) < self.admitted
        &&& forall|t: u64| (t as nat) < self.admitted ==> #[trigger] self.in_flight.contains(t) || self.emitted.contains(t)
    }

    /// A fresh pool with ceiling `max`.
    pub open spec fn fresh(max: nat) -> PoolView {
        PoolView { max, admitted: 0, in_flight: Set::empty(), emitted: Seq::empty() }
    }

    /// Whether a permit is free.
    pub open spec fn has_permit(self) -> bool {
        self.in_flight.len() < self.max
    }

    /// The pool after the next message is admitted under a new permit.
    pub open spec fn enter(self) -> PoolView {
        PoolView {
            admitted: self.admitted + 1,
            in_flight: self.in_flight.insert(self.admitted as u64),
            ..self
        }
    }

    /// The pool after ticket `t`'s task ended: its permit is released and its
    /// decision logged.
    pub open spec fn release(self, t: u64) -> PoolView {
        PoolView {
            in_flight: self.in_flight.remove(t),
            emitted: self.emitted.push(t),
            ..self
        }
    }
}

/// A unit of the concurrency budget, held by one in-flight task. It can be
/// neither copied nor made outside the executor; handing it back to
/// [`Executor::finish`] consumes it.
pub struct Permit {
    ticket: u64,
}

impl View for Permit {
    type V = u64;

    closed spec fn view(&self) -> u64 {
        self.ticket
    }
}

impl Permit {
    /// The ticket of the message that this permit was issued for.
    pub fn ticket(&self) -> (r: u64)
        ensures
            r == self@,
    {
        self.ticket
    }
}

/// An admitted message with the permit it runs under.
pub struct Task {
    pub permit: Permit,
    pub msg: Message,
}

/// What the executor did with an inbound command.
pub enum Admission {
    /// A permit was taken: the task is to be started.
    Started(Task),
    /// No permit is free: the command comes back, to be offered again once a
    /// running task has finished.
    Deferred(ExecutorCommand),
}

/// The admission-control stage: it bounds the number of messages being processed
/// at once and turns the end of each task into exactly one settlement decision.
pub struct Executor {
    max_concurrency: usize,
    next_ticket: u64,
    tickets: Vec<u64>,
    pool: Ghost<PoolView>,
}

/// The ceiling that a new executor gets.
pub const DEFAULT_MAX_CONCURRENCY: usize = 100;

impl View for Executor {
    type V = PoolView;

    closed spec fn view(&self) -> PoolView {
        self.pool@
    }
}

impl Executor {
    pub closed spec fn wf(&self) -> bool {
        &&& self@.inv()
        &&& self@.max == self.max_concurrency as nat
        &&& self@.admitted == self.next_ticket as nat
        &&& self.tickets@.no_duplicates()
        &&& self.tickets@.to_set() == self@.in_flight
        &&& self.tickets@.len() == self@.in_flight.len()
    }

    /// An executor with the default ceiling of one hundred tasks.
    pub fn new() -> (r: Executor)
        ensures
            r.wf(),
            r@ == PoolView::fresh(DEFAULT_MAX_CONCURRENCY as nat),
    {
        Executor::with_max_concurrency(DEFAULT_MAX_CONCURRENCY)
    }

    /// An executor that runs at most `max_concurrency` tasks at once.
    pub fn with_max_concurrency(max_concurrency: usize) -> (r: Executor)
        ensures
            r.wf(),
            r@ == PoolView::fresh(max_concurrency as nat),
    {
        let r = Executor {
            max_concurrency,
            next_ticket: 0,
            tickets: Vec::new(),
            pool: Ghost(PoolView::fresh(max_concurrency as nat)),
        };
        proof {
            assert(r.tickets@.to_set() =~= Set::<u64>::empty());
        }
        r
    }

    /// The concurrency ceiling.
    pub fn max_concurrency(&self) -> (r: usize)
        requires
            self.wf(),
        ensures
            r as nat == self@.max,
    {
        self.max_concurrency
    }

    /// How many tasks hold a permit.
    pub fn in_flight(&self) -> (r: usize)
        requires
            self.wf(),
        ensures
            r as nat == self@.in_flight.len(),
    {
        self.tickets.len()
    }

    /// How many messages have been admitted.
    pub fn admitted(&self) -> (r: u64)
        requires
            self.wf(),
        ensures
            r as nat == self@.admitted,
    {
        self.next_ticket
    }

    /// Whether another message can ever be given a ticket.
    pub fn can_issue(&self) -> (r: bool)
        requires
            self.wf(),
        ensures
            r == (self@.admitted < u64::MAX),
    {
        self.next_ticket < u64::MAX
    }

    /// Whether a permit is free.
    pub fn has_permit(&self) -> (r: bool)
        requires
            self.wf(),
        ensures
            r == self@.has_permit(),
    {
        self.tickets.len() < self.max_concurrency
    }

    /// Whether `permit` is held by a task of this executor.
    pub fn holds(&self, permit: &Permit) -> (r: bool)
        requires
            self.wf(),
        ensures
            r == self@.in_flight.contains(permit@),
    {
        let mut i: usize = 0;
        while i < self.tickets.len()
            invariant
                self.wf(),
                i <= self.tickets.len(),
                forall|j: int| 0 <= j < i ==> self.tickets@[j] != permit@,
            decreases self.tickets.len() - i,
        {
            if self.tickets[i] == permit.ticket {
                proof {
                    assert(self.tickets@.contains(permit@));
                }
                return true;
            }
            i = i + 1;
        }
        proof {
            assert(!self.tickets@.contains(permit@));
        }
        false
    }

    /// Takes one inbound command. Where a permit is free, the message is admitted
    /// under a new permit whose ticket is the number of messages admitted before
    /// it; otherwise nothing changes and the command is handed back.
    pub fn process(&mut self, cmd: ExecutorCommand) -> (r: Admission)
        requires
            old(self).wf(),
            old(self)@.admitted < u64::MAX,
        ensures
            final(self).wf(),
            old(self)@.has_permit() ==> (match r {
                Admission::Started(task) => final(self)@ == old(self)@.enter()
                    && task.permit@ as nat == old(self)@.admitted
                    && cmd == (ExecutorCommand::Process { msg: task.msg }),
                Admission::Deferred(_) => false,
            }),
            !old(self)@.has_permit() ==> r == Admission::Deferred(cmd) && final(self)@ == old(self)@,
    {
        if self.tickets.len() < self.max_concurrency {
            let ticket = self.next_ticket;
            proof {
                let pre = self@;
                let post = pre.enter();
                lemma_enter_keeps_inv(pre);
                assert(!self.tickets@.contains(ticket));
                self.tickets@.lemma_push_to_set_commute(ticket);
                self.pool = Ghost(post);
            }
            self.tickets.push(ticket);
            self.next_ticket = self.next_ticket + 1;
            match cmd {
                ExecutorCommand::Process { msg } => Admission::Started(Task { permit: Permit { ticket }, msg }),
            }
        } else {
            Admission::Deferred(cmd)
        }
    }

    /// Ends a task, whatever its outcome: the permit is released and the task's
    /// settlement decision returned, an acknowledgment for a success and a
    /// negative acknowledgment for any failure or fault.
    pub fn finish(&mut self, task: Task, outcome: Outcome) -> (r: AckerCommand)
        requires
            old(self).wf(),
            old(self)@.in_flight.contains(task.permit@),
        ensures
            final(self).wf(),
            final(self)@ == old(self)@.release(task.permit@),
            r.spec_verdict() == (if outcome.succeeded() { Verdict::Ack } else { Verdict::Nack }),
            *r.spec_msg() == task.msg,
    {
        let Task { permit, msg } = task;
        let t = permit.ticket;
        let ghost pre = self@;
        let ghost old_tickets = self.tickets@;
        assert(old_tickets.contains(t));
        let mut i: usize = 0;
        while self.tickets[i] != t
            invariant
                self.tickets@ == old_tickets,
                old_tickets.contains(t),
                i < old_tickets.len(),
                forall|j: int| 0 <= j < i ==> old_tickets[j] != t,
            decreases old_tickets.len() - i,
        {
            proof {
                let k = choose|k: int| 0 <= k < old_tickets.len() && old_tickets[k] == t;
                assert(old_tickets[i as int] != t);
                if k <= i {
                    assert(old_tickets[k] == t);
                }
                assert(i + 1 < self.tickets.len());
            }
            i = i + 1;
        }
        self.tickets.swap_remove(i);
        proof {
            let post = pre.release(t);
            let nt = self.tickets@;
            assert(nt =~= old_tickets.update(i as int, old_tickets.last()).drop_last());
            assert(nt.to_set() =~= old_tickets.to_set().remove(t)) by {
                assert forall|x: u64| nt.to_set().contains(x) == old_tickets.to_set().remove(t).contains(x) by {
                    if nt.to_set().contains(x) {
                        let k = choose|k: int| 0 <= k < nt.len() && nt[k] == x;
                        if k == i {
                            assert(old_tickets[old_tickets.len() - 1] == x);
                        } else {
                            assert(old_tickets[k] == x);
                        }
                    }
                    if old_tickets.to_set().remove(t).contains(x) {
                        let k = choose|k: int| 0 <= k < old_tickets.len() && old_tickets[k] == x;
                        if k == old_tickets.len() - 1 {
                            assert(nt[i as int] == x);
                        } else {
                            assert(nt[k] == x);
                        }
                    }
                }
            }
            assert(nt.no_duplicates());
            lemma_release_keeps_inv(pre, t);
            self.pool = Ghost(post);
        }
        let verdict = outcome.verdict();
        AckerCommand::decide(verdict, msg)
    }
}

/// A fresh pool satisfies the invariant.
pub proof fn lemma_fresh_inv(max: nat)
    ensures
        PoolView::fresh(max).inv(),
{
}

/// Admitting a message under a free permit keeps the invariant.
pub proof fn lemma_enter_keeps_inv(pre: PoolView)
    requires
        pre.inv(),
        pre.has_permit(),
        pre.admitted < u64::MAX,
    ensures
        pre.enter().inv(),
{
    let post = pre.enter();
    let ticket = pre.admitted as u64;
    assert(!pre.in_flight.contains(ticket)) by {
        if pre.in_flight.contains(ticket) {
            assert((ticket as nat) < pre.admitted);
        }
    }
    assert(forall|t: u64| (t as nat) < post.admitted ==> #[trigger] post.in_flight.contains(t) || post.emitted.contains(t)) by {
        assert forall|t: u64| (t as nat) < post.admitted implies #[trigger] post.in_flight.contains(t) || post.emitted.contains(t) by {
            if t != ticket {
                assert(pre.in_flight.contains(t) || pre.emitted.contains(t));
            }
        }
    }
    assert(forall|t: u64| #[trigger] post.in_flight.contains(t) ==> !post.emitted.contains(t)) by {
        assert forall|t: u64| #[trigger] post.in_flight.contains(t) implies !post.emitted.contains(t) by {
            if t == ticket && pre.emitted.contains(t) {
                let i = choose|i: int| 0 <= i < pre.emitted.len() && pre.emitted[i] == t;
                assert((pre.emitted[i] as nat) < pre.admitted);
            }
        }
    }
}

/// Releasing the permit of an in-flight ticket keeps the invariant, whatever the
/// task's outcome was.
pub proof fn lemma_release_keeps_inv(pre: PoolView, t: u64)
    requires
        pre.inv(),
        pre.in_flight.contains(t),
    ensures
        pre.release(t).inv(),
{
    let post = pre.release(t);
    assert(!pre.emitted.contains(t));
    assert(post.emitted.no_duplicates()) by {
        assert forall|a: int, b: int| 0 <= a < b < post.emitted.len() implies post.emitted[a] != post.emitted[b] by {
            if b == post.emitted.len() - 1 {
                assert(pre.emitted[a] == post.emitted[a]);
            }
        }
    }
    assert(forall|t2: u64| (t2 as nat) < post.admitted ==> #[trigger] post.in_flight.contains(t2) || post.emitted.contains(t2)) by {
        assert forall|t2: u64| (t2 as nat) < post.admitted implies #[trigger] post.in_flight.contains(t2) || post.emitted.contains(t2) by {
            if t2 == t {
                assert(post.emitted[post.emitted.len() - 1] == t);
            } else if pre.emitted.contains(t2) {
                let k = choose|k: int| 0 <= k < pre.emitted.len() && pre.emitted[k] == t2;
                assert(post.emitted[k] == t2);
            }
        }
    }
    assert(forall|t2: u64| #[trigger] post.in_flight.contains(t2) ==> !post.emitted.contains(t2)) by {
        assert forall|t2: u64| #[trigger] post.in_flight.contains(t2) implies !post.emitted.contains(t2) by {
            if post.emitted.contains(t2) {
                let k = choose|k: int| 0 <= k < post.emitted.len() && post.emitted[k] == t2;
                if k < pre.emitted.len() {
                    assert(pre.emitted[k] == t2);
                }
            }
        }
    }
    assert(forall|k: int| 0 <= k < post.emitted.len() ==> (#[trigger] post.emitted[k] as nat) < post.admitted) by {
        assert forall|k: int| 0 <= k < post.emitted.len() implies (#[trigger] post.emitted[k] as nat) < post.admitted by {
            if k < pre.emitted.len() {
                assert(pre.emitted[k] == post.emitted[k]);
            }
        }
    }
}

/// Once no task is in flight, each admitted message has had exactly one settlement
/// decision: there are as many decisions as admissions, no ticket is decided
/// twice, and every admitted ticket is among them.
pub proof fn lemma_idle_pool_settled_each_once(p: PoolView)
    requires
        p.inv(),
        p.in_flight.len() == 0,
    ensures
        p.emitted.len() == p.admitted,
        p.emitted.no_duplicates(),
        forall|t: u64| (t as nat) < p.admitted ==> #[trigger] p.emitted.contains(t),
        forall|i: int| 0 <= i < p.emitted.len() ==> (#[trigger] p.emitted[i] as nat) < p.admitted,
{
    assert forall|t: u64| (t as nat) < p.admitted implies #[trigger] p.emitted.contains(t) by {
        if p.in_flight.contains(t) {
            assert(p.in_flight.len() > 0);
        }
    }
}

/// The number of tasks holding a permit never exceeds the ceiling, and a message
/// is admitted only while a permit is free.
pub proof fn lemma_within_ceiling(p: PoolView)
    requires
        p.inv(),
    ensures
        p.in_flight.len() <= p.max,
        p.has_permit() && p.admitted < u64::MAX ==> p.enter().in_flight.len() <= p.max,
{
    if p.has_permit() && p.admitted < u64::MAX {
        lemma_enter_keeps_inv(p);
    }
}

/// A permit is released exactly once: releasing it takes its ticket out of the
/// in-flight set for good and logs the ticket's one decision; no later admission
/// brings the ticket back, so it cannot be released a second time.
pub proof fn lemma_permit_released_once(p: PoolView, t: u64)
    requires
        p.inv(),
        p.in_flight.contains(t),
    ensures
        !p.emitted.contains(t),
        !p.release(t).in_flight.contains(t),
        p.release(t).in_flight.len() + 1 == p.in_flight.len(),
        p.release(t).emitted == p.emitted.push(t),
        p.release(t).admitted < u64::MAX ==> !p.release(t).enter().in_flight.contains(t),
{
    lemma_release_keeps_inv(p, t);
}

/// Tasks may end in any order, whatever order their messages were received in:
/// two in-flight tickets can be released either way round, and both ways lead to
/// a valid pool with the same permits held and each ticket decided exactly once.
pub proof fn lemma_completion_order_is_free(p: PoolView, a: u64, b: u64)
    requires
        p.inv(),
        p.in_flight.contains(a),
        p.in_flight.contains(b),
        a != b,
    ensures
        p.release(a).in_flight.contains(b),
        p.release(b).in_flight.contains(a),
        p.release(a).release(b).inv(),
        p.release(b).release(a).inv(),
        p.release(a).release(b).in_flight == p.release(b).release(a).in_flight,
        p.release(a).release(b).emitted == p.emitted.push(a).push(b),
        p.release(b).release(a).emitted == p.emitted.push(b).push(a),
{
    lemma_release_keeps_inv(p, a);
    lemma_release_keeps_inv(p, b);
    lemma_release_keeps_inv(p.release(a), b);
    lemma_release_keeps_inv(p.release(b), a);
    assert(p.release(a).release(b).in_flight =~= p.release(b).release(a).in_flight);
}

/// One event in the life of a pool.
pub ghost enum PoolStep {
    /// The next message is admitted under a new permit.
    Enter,
    /// The task of ticket `t` ends and its permit is released.
    Release(u64),
}

/// Whether `step` can happen in pool `p`: admission needs a free permit (and a
/// ticket left to give), release needs the ticket to be in flight.
pub open spec fn step_enabled(p: PoolView, step: PoolStep) -> bool {
    match step {
        PoolStep::Enter => p.has_permit() && p.admitted < u64::MAX,
        PoolStep::Release(t) => p.in_flight.contains(t),
    }
}

/// The pool after `step`.
pub open spec fn apply(p: PoolView, step: PoolStep) -> PoolView {
    match step {
        PoolStep::Enter => p.enter(),
        PoolStep::Release(t) => p.release(t),
    }
}

/// The pool after `steps`, taken in order from `p`; none if one of them cannot
/// happen when its turn comes.
pub open spec fn run(p: PoolView, steps: Seq<PoolStep>) -> Option<PoolView>
    decreases steps.len(),
{
    if steps.len() == 0 {
        Some(p)
    } else if step_enabled(p, steps[0]) {
        run(apply(p, steps[0]), steps.drop_first())
    } else {
        None
    }
}

/// How many admissions `steps` holds.
pub open spec fn admissions(steps: Seq<PoolStep>) -> nat
    decreases steps.len(),
{
    if steps.len() == 0 {
        0
    } else {
        (if steps[0] is Enter { 1nat } else { 0nat }) + admissions(steps.drop_first())
    }
}

/// A run keeps the invariant, and the pool counts exactly the admissions of the
/// run.
pub proof fn lemma_run_keeps_inv(p: PoolView, steps: Seq<PoolStep>)
    requires
        p.inv(),
        run(p, steps) is Some,
    ensures
        run(p, steps)->0.inv(),
        run(p, steps)->0.admitted == p.admitted + admissions(steps),
        run(p, steps)->0.max == p.max,
    decreases steps.len(),
{
    if steps.len() > 0 {
        let q = apply(p, steps[0]);
        match steps[0] {
            PoolStep::Enter => lemma_enter_keeps_inv(p),
            PoolStep::Release(t) => lemma_release_keeps_inv(p, t),
        }
        lemma_run_keeps_inv(q, steps.drop_first());
    }
}

/// Whatever the order of admissions and completions, once every task of a run
/// from a fresh pool has ended, the run's N admissions have had exactly N
/// settlement decisions, one for each admitted message and none twice.
pub proof fn lemma_every_admitted_settled_once(max: nat, steps: Seq<PoolStep>)
    requires
        run(PoolView::fresh(max), steps) is Some,
        run(PoolView::fresh(max), steps)->0.in_flight.len() == 0,
    ensures
        ({
            let q = run(PoolView::fresh(max), steps)->0;
            &&& q.admitted == admissions(steps)
            &&& q.emitted.len() == admissions(steps)
            &&& q.emitted.no_duplicates()
            &&& forall|t: u64| (t as nat) < q.admitted ==> #[trigger] q.emitted.contains(t)
            &&& forall|i: int| 0 <= i < q.emitted.len() ==> (#[trigger] q.emitted[i] as nat) < q.admitted
        }),
{
    lemma_fresh_inv(max);
    lemma_run_keeps_inv(PoolView::fresh(max), steps);
    lemma_idle_pool_settled_each_once(run(PoolView::fresh(max), steps)->0);
}

/// No run from a fresh pool ever holds more permits than the ceiling.
pub proof fn lemma_run_within_ceiling(max: nat, steps: Seq<PoolStep>)
    requires
        run(PoolView::fresh(max), steps) is Some,
    ensures
        run(PoolView::fresh(max), steps)->0.in_flight.len() <= max,
{
    lemma_fresh_inv(max);
    lemma_run_keeps_inv(PoolView::fresh(max), steps);
}

} // verus!
