use vstd::prelude::*;
use crate::message::Message;
use crate::receiver::Poll;

verus! {

/// What the collection phase of a batch does next.
pub enum WindowAction {
    /// Poll the subscription again.
    Continue,
    /// Stop collecting and dispatch the batch.
    Dispatch,
}

/// The collection window of the batch-mode pipeline: messages are gathered until
/// the batch holds `capacity` of them, the deadline has passed, or a poll fails,
/// whichever comes first.
pub struct BatchWindow {
    capacity: usize,
    deadline_ms: u64,
    batch: Vec<Message>,
}

/// The largest batch that a window gathers by default.
pub const DEFAULT_BATCH_SIZE: usize = 10000;

/// How long a window stays open by default, in milliseconds.
pub const DEFAULT_BATCH_TIMEOUT_MS: u64 = 2000;

/// The abstract state of a window.
pub ghost struct WindowView {
    pub capacity: nat,
    /// The time, in milliseconds, from which the window is closed.
    pub deadline_ms: nat,
    /// The messages gathered, in order of delivery.
    pub batch: Seq<Message>,
}

impl View for BatchWindow {
    type V = WindowView;

    closed spec fn view(&self) -> WindowView {
        WindowView {
            capacity: self.capacity as nat,
            deadline_ms: self.deadline_ms as nat,
            batch: self.batch@,
        }
    }
}

/// The deadline of a window opened at `now_ms` for `timeout_ms`, held at the
/// largest time that can be written.
pub open spec fn deadline(now_ms: nat, timeout_ms: nat) -> nat {
    if now_ms + timeout_ms <= u64::MAX { now_ms + timeout_ms } else { u64::MAX as nat }
}

impl BatchWindow {
    /// Opens a window at time `now_ms` that gathers up to `capacity` messages
    /// and stays open for `timeout_ms` milliseconds.
    pub fn open(capacity: usize, timeout_ms: u64, now_ms: u64) -> (r: BatchWindow)
        ensures
            r@ == (WindowView {
                capacity: capacity as nat,
                deadline_ms: deadline(now_ms as nat, timeout_ms as nat),
                batch: Seq::empty(),
            }),
    {
        let deadline_ms = now_ms.saturating_add(timeout_ms);
        BatchWindow { capacity, deadline_ms, batch: Vec::new() }
    }

    /// Whether the batch holds as many messages as it may.
    pub fn is_full(&self) -> (r: bool)
        ensures
            r == (self@.batch.len() >= self@.capacity),
    {
        self.batch.len() >= self.capacity
    }

    /// How many messages have been gathered.
    pub fn len(&self) -> (r: usize)
        ensures
            r as nat == self@.batch.len(),
    {
        self.batch.len()
    }

    /// How long the window stays open after `now_ms`: nothing once the deadline
    /// has passed.
    pub fn remaining_ms(&self, now_ms: u64) -> (r: u64)
        ensures
            r as nat == (if now_ms as nat >= self@.deadline_ms { 0 } else { (self@.deadline_ms - now_ms) as nat }),
    {
        if now_ms >= self.deadline_ms {
            0
        } else {
            self.deadline_ms - now_ms
        }
    }

    /// Takes what one poll at time `now_ms` gave. A delivered message joins the
    /// batch. The window then closes if the batch is full, the deadline has
    /// passed, or the poll failed; after an empty poll it stays open until the
    /// deadline.
    pub fn on_poll(&mut self, poll: Poll, now_ms: u64) -> (r: WindowAction)
        requires
            old(self)@.batch.len() < old(self)@.capacity,
        ensures
            final(self)@.capacity == old(self)@.capacity,
            final(self)@.deadline_ms == old(self)@.deadline_ms,
            final(self)@.batch == (match poll {
                Poll::Delivered(msg) => old(self)@.batch.push(msg),
                _ => old(self)@.batch,
            }),
            (r is Dispatch) == (final(self)@.batch.len() >= final(self)@.capacity
                || now_ms as nat >= final(self)@.deadline_ms
                || poll is Failed),
    {
        let failed = match poll {
            Poll::Delivered(msg) => {
                self.batch.push(msg);
                false
            },
            Poll::Empty => false,
            Poll::Failed => true,
        };
        if failed || self.batch.len() >= self.capacity || now_ms >= self.deadline_ms {
            WindowAction::Dispatch
        } else {
            WindowAction::Continue
        }
    }

    /// Ends the collection phase and hands over the batch, in order of delivery.
    pub fn into_batch(self) -> (r: Vec<Message>)
        ensures
            r@ == self@.batch,
    {
        self.batch
    }
}

} // verus!
