//! A consumption pipeline for a key-ordered publish/subscribe topic.
//!
//! Messages flow from a [`Receiver`] to an [`Executor`], which admits each one
//! under a bounded pool of permits, and on to an [`Acker`], the single stage that
//! settles a message with the broker. In batch mode a [`BatchWindow`] takes the
//! receiver's place. The decisions of each stage are verified; the stages are
//! driven by the host program, which makes the broker calls, waits, and decodes.
mod message;
mod executor;
mod acker;
mod receiver;
mod batch;
mod config;
mod report;

pub use message::{AckerCommand, ExecutorCommand, Message, MessageId, Outcome, Outgoing, TestData, Verdict};
pub use executor::{
    admissions, apply, lemma_completion_order_is_free, lemma_enter_keeps_inv, lemma_every_admitted_settled_once,
    lemma_fresh_inv, lemma_idle_pool_settled_each_once, lemma_permit_released_once, lemma_release_keeps_inv,
    lemma_run_keeps_inv, lemma_run_within_ceiling, lemma_within_ceiling, run, step_enabled, Admission, Executor,
    Permit, PoolStep, PoolView, Task, DEFAULT_MAX_CONCURRENCY,
};
pub use acker::{Acker, AckerStep, SettleCall, DEFAULT_MAX_RETRIES};
pub use receiver::{
    backoff_delay, backoff_delay_ms, doubled, Poll, Receiver, ReceiverAction, ReceiverView, DEFAULT_BASE_DELAY_MS,
    DEFAULT_MAX_DELAY_MS,
};
pub use batch::{deadline, BatchWindow, WindowAction, WindowView, DEFAULT_BATCH_SIZE, DEFAULT_BATCH_TIMEOUT_MS};
pub use config::{AdmissionPolicy, PipelineConfig, DEFAULT_QUEUE_CAPACITY, DEFAULT_REDELIVERY_DELAY_MS};
pub use report::{per_task_nanos, whole_gib, GIB};
