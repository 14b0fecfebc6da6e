use vstd::prelude::*;
use crate::message::{ExecutorCommand, Message};

verus! {

/// What one poll of a subscription gave.
pub enum Poll {
    /// A message was delivered.
    Delivered(Message),
    /// No message is available at the moment.
    Empty,
    /// The poll failed at the transport.
    Failed,
}

/// What the receiver does next.
pub enum ReceiverAction {
    /// Hand the command to the executor's inbound queue, then poll again.
    Forward(ExecutorCommand),
    /// Poll again at once.
    PollAgain,
    /// Wait `delay_ms` milliseconds, then poll again.
    Backoff { delay_ms: u64 },
}

/// `base` doubled `k` times.
pub open spec fn doubled(base: nat, k: nat) -> nat
    decreases k,
{
    if k == 0 {
        base
    } else {
        2 * doubled(base, (k - 1) as nat)
    }
}

/// The wait after the `failures`-th transport failure in a row: `base` for the
/// first, twice as long for each further one, and never more than `max`.
pub open spec fn backoff_delay(base: nat, max: nat, failures: nat) -> nat {
    let d = doubled(base, (failures - 1) as nat);
    if d <= max { d } else { max }
}

proof fn lemma_doubled_grows(base: nat, j: nat, k: nat)
    requires
        j <= k,
    ensures
        doubled(base, j) <= doubled(base, k),
    decreases k,
{
    if j < k {
        lemma_doubled_grows(base, j, (k - 1) as nat);
    }
}

proof fn lemma_doubled_zero(k: nat)
    ensures
        doubled(0, k) == 0,
    decreases k,
{
    if k > 0 {
        lemma_doubled_zero((k - 1) as nat);
    }
}

/// Computes [`backoff_delay`].
pub fn backoff_delay_ms(base_ms: u64, max_ms: u64, failures: u32) -> (r: u64)
    requires
        failures >= 1,
    ensures
        r as nat == backoff_delay(base_ms as nat, max_ms as nat, failures as nat),
{
    let mut d: u64 = if base_ms <= max_ms { base_ms } else { max_ms };
    let mut k: u32 = 1;
    while k < failures && 0 < d && d < max_ms
        invariant
            1 <= k <= failures,
            d as nat == backoff_delay(base_ms as nat, max_ms as nat, k as nat),
        decreases failures - k,
    {
        d = if d > max_ms / 2 { max_ms } else { 2 * d };
        k = k + 1;
    }
    proof {
        let m = max_ms as nat;
        let target = backoff_delay(base_ms as nat, m, failures as nat);
        if k < failures {
            if d == 0 && max_ms == 0 {
            } else if d == 0 {
                assert(base_ms == 0) by {
                    if base_ms > 0 {
                        lemma_doubled_grows(base_ms as nat, 0, (k - 1) as nat);
                    }
                }
                lemma_doubled_zero((failures - 1) as nat);
            } else {
                assert(d == max_ms);
                lemma_doubled_grows(base_ms as nat, (k - 1) as nat, (failures - 1) as nat);
            }
        }
    }
    d
}

/// The receiving stage of one topic subscription. It forwards each delivered
/// message to the executor, treats an empty poll as normal, and answers a run of
/// transport failures with waits that double from `base_delay_ms` up to
/// `max_delay_ms`.
pub struct Receiver {
    failures: u32,
    base_delay_ms: u64,
    max_delay_ms: u64,
}

/// The first wait after a transport failure, in milliseconds.
pub const DEFAULT_BASE_DELAY_MS: u64 = 100;

/// The longest wait after transport failures, in milliseconds.
pub const DEFAULT_MAX_DELAY_MS: u64 = 10000;

/// The abstract state of a receiver.
pub ghost struct ReceiverView {
    /// Transport failures since the last successful poll.
    pub failures: nat,
    pub base_delay_ms: nat,
    pub max_delay_ms: nat,
}

impl View for Receiver {
    type V = ReceiverView;

    closed spec fn view(&self) -> ReceiverView {
        ReceiverView {
            failures: self.failures as nat,
            base_delay_ms: self.base_delay_ms as nat,
            max_delay_ms: self.max_delay_ms as nat,
        }
    }
}

impl Receiver {
    /// A receiver with the default waits.
    pub fn new() -> (r: Receiver)
        ensures
            r@ == (ReceiverView {
                failures: 0,
                base_delay_ms: DEFAULT_BASE_DELAY_MS as nat,
                max_delay_ms: DEFAULT_MAX_DELAY_MS as nat,
            }),
    {
        Receiver::with_backoff(DEFAULT_BASE_DELAY_MS, DEFAULT_MAX_DELAY_MS)
    }

    /// A receiver whose waits start at `base_delay_ms` and stop growing at
    /// `max_delay_ms`.
    pub fn with_backoff(base_delay_ms: u64, max_delay_ms: u64) -> (r: Receiver)
        ensures
            r@ == (ReceiverView {
                failures: 0,
                base_delay_ms: base_delay_ms as nat,
                max_delay_ms: max_delay_ms as nat,
            }),
    {
        Receiver { failures: 0, base_delay_ms, max_delay_ms }
    }

    /// Transport failures since the last successful poll.
    pub fn failures(&self) -> (r: u32)
        ensures
            r as nat == self@.failures,
    {
        self.failures
    }

    /// Decides what follows one poll. A delivered message goes on to the
    /// executor; an empty poll is polled again at once; either resets the count
    /// of failures. A failed poll counts one more failure (the count stays at its
    /// largest value once there) and waits as [`backoff_delay`] says.
    pub fn consume(&mut self, poll: Poll) -> (r: ReceiverAction)
        ensures
            final(self)@.base_delay_ms == old(self)@.base_delay_ms,
            final(self)@.max_delay_ms == old(self)@.max_delay_ms,
            match poll {
                Poll::Delivered(msg) => final(self)@.failures == 0
                    && r == ReceiverAction::Forward(ExecutorCommand::Process { msg }),
                Poll::Empty => final(self)@.failures == 0 && r == ReceiverAction::PollAgain,
                Poll::Failed => final(self)@.failures == (if old(self)@.failures < u32::MAX {
                        old(self)@.failures + 1
                    } else {
                        old(self)@.failures
                    })
                    && r == (ReceiverAction::Backoff {
                        delay_ms: backoff_delay(
                            old(self)@.base_delay_ms,
                            old(self)@.max_delay_ms,
                            final(self)@.failures,
                        ) as u64,
                    }),
            },
    {
        match poll {
            Poll::Delivered(msg) => {
                self.failures = 0;
                ReceiverAction::Forward(ExecutorCommand::Process { msg })
            },
            Poll::Empty => {
                self.failures = 0;
                ReceiverAction::PollAgain
            },
            Poll::Failed => {
                if self.failures < u32::MAX {
                    self.failures = self.failures + 1;
                }
                let delay_ms = backoff_delay_ms(self.base_delay_ms, self.max_delay_ms, self.failures);
                ReceiverAction::Backoff { delay_ms }
            },
        }
    }
}

} // verus!
