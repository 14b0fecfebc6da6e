use vstd::prelude::*;

verus! {

/// The record that producers publish and the processing step decodes.
pub struct TestData {
    pub data: String,
    pub partition_key: String,
}

/// A record ready to publish: its encoded payload, routed by its partition key.
pub struct Outgoing {
    pub payload: Vec<u8>,
    pub partition_key: Option<String>,
}

impl TestData {
    /// Frames this record for publishing, given its encoded form `payload`: the
    /// payload is sent as it is, under the record's partition key, so that the
    /// broker routes records of one key to one consumer.
    pub fn frame(self, payload: Vec<u8>) -> (r: Outgoing)
        ensures
            r.payload@ == payload@,
            r.partition_key == Some(self.partition_key),
    {
        Outgoing { payload, partition_key: Some(self.partition_key) }
    }
}

/// The broker's identity of a message within its topic.
#[derive(Clone, Copy, Debug, PartialEq, Eq, Hash, Structural)]
pub struct MessageId {
    pub ledger_id: u64,
    pub entry_id: u64,
    pub partition: i32,
    pub batch_index: i32,
}

/// A message as received from a topic subscription. It is never changed after
/// receipt: each stage moves it on to the next.
pub struct Message {
    pub topic: String,
    pub message_id: MessageId,
    pub partition_key: String,
    pub payload: Vec<u8>,
}

/// What the receiver hands to the executor.
pub enum ExecutorCommand {
    Process { msg: Message },
}

/// A settlement decision, handed from the executor to the acker.
pub enum AckerCommand {
    Ack { msg: Message },
    Nack { msg: Message },
}

/// The two ways a message can be settled.
#[derive(Clone, Copy, Debug, PartialEq, Eq, Structural)]
pub enum Verdict {
    Ack,
    Nack,
}

/// How the processing of one message ended.
pub enum Outcome {
    /// The payload was decoded and processed.
    Success,
    /// The payload could not be decoded.
    DecodeFailed { reason: String },
    /// The processing step reported an error.
    ProcessingFailed { reason: String },
    /// The task running the processing step ended abnormally.
    Faulted,
}

impl Outcome {
    pub open spec fn succeeded(&self) -> bool {
        self is Success
    }

    /// The settlement that this outcome calls for: only a success is acknowledged.
    pub fn verdict(&self) -> (r: Verdict)
        ensures
            r == (if self.succeeded() { Verdict::Ack } else { Verdict::Nack }),
    {
        match self {
            Outcome::Success => Verdict::Ack,
            _ => Verdict::Nack,
        }
    }
}

impl AckerCommand {
    pub open spec fn spec_verdict(&self) -> Verdict {
        match self {
            AckerCommand::Ack { .. } => Verdict::Ack,
            AckerCommand::Nack { .. } => Verdict::Nack,
        }
    }

    pub open spec fn spec_msg(&self) -> &Message {
        match self {
            AckerCommand::Ack { msg } => msg,
            AckerCommand::Nack { msg } => msg,
        }
    }

    /// Builds the decision `verdict` for `msg`.
    pub fn decide(verdict: Verdict, msg: Message) -> (r: AckerCommand)
        ensures
            r.spec_verdict() == verdict,
            *r.spec_msg() == msg,
    {
        match verdict {
            Verdict::Ack => AckerCommand::Ack { msg },
            Verdict::Nack => AckerCommand::Nack { msg },
        }
    }

    /// The verdict that this decision carries.
    pub fn verdict(&self) -> (r: Verdict)
        ensures
            r == self.spec_verdict(),
    {
        match self {
            AckerCommand::Ack { .. } => Verdict::Ack,
            AckerCommand::Nack { .. } => Verdict::Nack,
        }
    }

    /// The message that this decision settles.
    pub fn msg(&self) -> (r: &Message)
        ensures
            *r == *self.spec_msg(),
    {
        match self {
            AckerCommand::Ack { msg } => msg,
            AckerCommand::Nack { msg } => msg,
        }
    }
}

} // verus!
