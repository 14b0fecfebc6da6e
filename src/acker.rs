use vstd::prelude::*;
use crate::message::{AckerCommand, MessageId, Verdict};

verus! {

/// One call of the broker's settlement primitive: acknowledge or negatively
/// acknowledge the message `message_id` of `topic`.
pub struct SettleCall {
    pub topic: String,
    pub message_id: MessageId,
    pub verdict: Verdict,
    /// How many earlier calls for this message failed.
    pub retries: u32,
}

/// What follows a settlement call.
pub enum AckerStep {
    /// The broker took the call: the message is settled.
    Settled,
    /// The call failed and is to be made again.
    Retry(SettleCall),
    /// The call failed too often: it is given up, and the broker's own
    /// redelivery of unacknowledged messages recovers the message.
    GaveUp(SettleCall),
}

/// The settlement stage: the one component that calls the broker's ack or nack
/// for a message, addressed by topic and message identity, retrying a failed
/// call a bounded number of times.
pub struct Acker {
    max_retries: u32,
}

/// How many times a new acker repeats a failed settlement call.
pub const DEFAULT_MAX_RETRIES: u32 = 3;

impl View for Acker {
    type V = nat;

    /// The number of repeats allowed after a failed call.
    closed spec fn view(&self) -> nat {
        self.max_retries as nat
    }
}

impl Acker {
    /// An acker that repeats a failed call up to three times.
    pub fn new() -> (r: Acker)
        ensures
            r@ == DEFAULT_MAX_RETRIES as nat,
    {
        Acker { max_retries: DEFAULT_MAX_RETRIES }
    }

    /// An acker that repeats a failed call up to `max_retries` times.
    pub fn with_max_retries(max_retries: u32) -> (r: Acker)
        ensures
            r@ == max_retries as nat,
    {
        Acker { max_retries }
    }

    /// How many times a failed call is repeated.
    pub fn max_retries(&self) -> (r: u32)
        ensures
            r as nat == self@,
    {
        self.max_retries
    }

    /// Turns a settlement decision into the first broker call for it: the
    /// decision's verdict, addressed to its message's topic and identity.
    pub fn handle_msg(&self, cmd: AckerCommand) -> (r: SettleCall)
        ensures
            r.topic == cmd.spec_msg().topic,
            r.message_id == cmd.spec_msg().message_id,
            r.verdict == cmd.spec_verdict(),
            r.retries == 0,
    {
        let verdict = cmd.verdict();
        let msg = match cmd {
            AckerCommand::Ack { msg } => msg,
            AckerCommand::Nack { msg } => msg,
        };
        SettleCall { topic: msg.topic, message_id: msg.message_id, verdict, retries: 0 }
    }

    /// Decides what follows a settlement call that `succeeded` or not: a success
    /// settles the message; a failure is repeated, with its count of retries one
    /// higher, until that count reaches the bound, and then given up.
    pub fn after_call(&self, call: SettleCall, succeeded: bool) -> (r: AckerStep)
        ensures
            succeeded ==> r is Settled,
            !succeeded && (call.retries as nat) < self@ ==> (match r {
                AckerStep::Retry(next) => next.topic == call.topic && next.message_id == call.message_id
                    && next.verdict == call.verdict && next.retries == call.retries + 1,
                _ => false,
            }),
            !succeeded && (call.retries as nat) >= self@ ==> r == AckerStep::GaveUp(call),
    {
        if succeeded {
            AckerStep::Settled
        } else if call.retries < self.max_retries {
            AckerStep::Retry(SettleCall { retries: call.retries + 1, ..call })
        } else {
            AckerStep::GaveUp(call)
        }
    }
}

} // verus!
