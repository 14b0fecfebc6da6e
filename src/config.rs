use vstd::prelude::*;
use crate::batch::{BatchWindow, WindowView, deadline, DEFAULT_BATCH_SIZE, DEFAULT_BATCH_TIMEOUT_MS};
use crate::executor::{Executor, PoolView, DEFAULT_MAX_CONCURRENCY};

verus! {

/// How messages are admitted into processing.
#[derive(Clone, Copy, Debug, PartialEq, Eq, Structural)]
pub enum AdmissionPolicy {
    /// Each message is admitted as it arrives, as soon as a permit is free.
    Continuous,
    /// Messages are gathered into batches of at most `batch_size`, over windows of
    /// `timeout_ms` milliseconds; a batch is processed in full before the next
    /// window opens.
    Windowed { batch_size: usize, timeout_ms: u64 },
}

/// The settings of one pipeline.
#[derive(Clone, Copy, Debug, PartialEq, Eq, Structural)]
pub struct PipelineConfig {
    /// The most messages processed at once.
    pub max_concurrency: usize,
    /// The capacity of the queues between the stages.
    pub queue_capacity: usize,
    /// How long the broker waits before it redelivers an unacknowledged
    /// message, in milliseconds.
    pub redelivery_delay_ms: u64,
    pub policy: AdmissionPolicy,
}

/// The capacity of a queue between two stages, by default.
pub const DEFAULT_QUEUE_CAPACITY: usize = 1000;

/// The broker's redelivery delay for unacknowledged messages, by default, in
/// milliseconds.
pub const DEFAULT_REDELIVERY_DELAY_MS: u64 = 60000;

impl PipelineConfig {
    /// The settings of a pipeline that admits messages continuously.
    pub fn new() -> (r: PipelineConfig)
        ensures
            r == (PipelineConfig {
                max_concurrency: DEFAULT_MAX_CONCURRENCY,
                queue_capacity: DEFAULT_QUEUE_CAPACITY,
                redelivery_delay_ms: DEFAULT_REDELIVERY_DELAY_MS,
                policy: AdmissionPolicy::Continuous,
            }),
    {
        PipelineConfig {
            max_concurrency: DEFAULT_MAX_CONCURRENCY,
            queue_capacity: DEFAULT_QUEUE_CAPACITY,
            redelivery_delay_ms: DEFAULT_REDELIVERY_DELAY_MS,
            policy: AdmissionPolicy::Continuous,
        }
    }

    /// The settings of a pipeline that admits messages in batches of up to ten
    /// thousand, over windows of two seconds.
    pub fn batched() -> (r: PipelineConfig)
        ensures
            r == (PipelineConfig {
                max_concurrency: DEFAULT_MAX_CONCURRENCY,
                queue_capacity: DEFAULT_QUEUE_CAPACITY,
                redelivery_delay_ms: DEFAULT_REDELIVERY_DELAY_MS,
                policy: AdmissionPolicy::Windowed {
                    batch_size: DEFAULT_BATCH_SIZE,
                    timeout_ms: DEFAULT_BATCH_TIMEOUT_MS,
                },
            }),
    {
        PipelineConfig {
            policy: AdmissionPolicy::Windowed { batch_size: DEFAULT_BATCH_SIZE, timeout_ms: DEFAULT_BATCH_TIMEOUT_MS },
            ..PipelineConfig::new()
        }
    }

    /// These settings with another ceiling on concurrent processing.
    pub fn with_max_concurrency(self, max_concurrency: usize) -> (r: PipelineConfig)
        ensures
            r == (PipelineConfig { max_concurrency, ..self }),
    {
        PipelineConfig { max_concurrency, ..self }
    }

    /// These settings with another admission policy.
    pub fn with_policy(self, policy: AdmissionPolicy) -> (r: PipelineConfig)
        ensures
            r == (PipelineConfig { policy, ..self }),
    {
        PipelineConfig { policy, ..self }
    }

    /// A fresh executor under this pipeline's ceiling.
    pub fn executor(&self) -> (r: Executor)
        ensures
            r.wf(),
            r@ == PoolView::fresh(self.max_concurrency as nat),
    {
        Executor::with_max_concurrency(self.max_concurrency)
    }

    /// The collection window opened at `now_ms`, for a pipeline that admits in
    /// batches; none for one that admits continuously.
    pub fn open_window(&self, now_ms: u64) -> (r: Option<BatchWindow>)
        ensures
            match self.policy {
                AdmissionPolicy::Continuous => r is None,
                AdmissionPolicy::Windowed { batch_size, timeout_ms } => r is Some && r->0@ == (WindowView {
                    capacity: batch_size as nat,
                    deadline_ms: deadline(now_ms as nat, timeout_ms as nat),
                    batch: Seq::empty(),
                }),
            },
    {
        match self.policy {
            AdmissionPolicy::Continuous => None,
            AdmissionPolicy::Windowed { batch_size, timeout_ms } => Some(BatchWindow::open(batch_size, timeout_ms, now_ms)),
        }
    }
}

} // verus!
