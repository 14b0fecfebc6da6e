use pulsar_rust_poc::{
    backoff_delay_ms, per_task_nanos, whole_gib, Acker, AckerCommand, AckerStep, Admission, AdmissionPolicy,
    BatchWindow, Executor, ExecutorCommand, Message, MessageId, Outcome, PipelineConfig, Poll, Receiver,
    ReceiverAction, TestData, Verdict, WindowAction, DEFAULT_BATCH_SIZE, DEFAULT_BATCH_TIMEOUT_MS,
    DEFAULT_MAX_CONCURRENCY, DEFAULT_MAX_RETRIES, Task,
};

fn msg(n: u64, key: &str) -> Message {
    Message {
        topic: "test".to_string(),
        message_id: MessageId { ledger_id: 7, entry_id: n, partition: -1, batch_index: -1 },
        partition_key: key.to_string(),
        payload: format!("{{\"data\":\"m{}\",\"partition_key\":\"{}\"}}", n, key).into_bytes(),
    }
}

fn start(executor: &mut Executor, m: Message) -> Task {
    match executor.process(ExecutorCommand::Process { msg: m }) {
        Admission::Started(task) => task,
        Admission::Deferred(_) => panic!("expected a free permit"),
    }
}

fn deferred(executor: &mut Executor, m: Message) -> bool {
    matches!(executor.process(ExecutorCommand::Process { msg: m }), Admission::Deferred(_))
}

#[test]
fn five_messages_two_permits_all_acked() {
    let mut executor = Executor::with_max_concurrency(2);
    let mut inbound: Vec<Message> = (1..=5).map(|n| msg(n, "k")).collect();
    inbound.reverse();
    let mut running: Vec<Task> = Vec::new();
    let mut settled: Vec<(u64, Verdict)> = Vec::new();
    let mut peak = 0;
    while !inbound.is_empty() || !running.is_empty() {
        if let Some(m) = inbound.pop() {
            match executor.process(ExecutorCommand::Process { msg: m }) {
                Admission::Started(task) => running.push(task),
                Admission::Deferred(ExecutorCommand::Process { msg }) => {
                    inbound.push(msg);
                    let task = running.remove(0);
                    let cmd = executor.finish(task, Outcome::Success);
                    settled.push((cmd.msg().message_id.entry_id, cmd.verdict()));
                }
            }
        } else {
            let task = running.remove(0);
            let cmd = executor.finish(task, Outcome::Success);
            settled.push((cmd.msg().message_id.entry_id, cmd.verdict()));
        }
        peak = peak.max(executor.in_flight());
        assert!(executor.in_flight() <= 2);
    }
    assert_eq!(peak, 2);
    assert_eq!(settled.len(), 5);
    let mut ids: Vec<u64> = settled.iter().map(|s| s.0).collect();
    ids.sort();
    assert_eq!(ids, vec![1, 2, 3, 4, 5]);
    assert!(settled.iter().all(|s| s.1 == Verdict::Ack));
    assert_eq!(executor.admitted(), 5);
}

#[test]
fn undecodable_payload_is_nacked_once() {
    let mut executor = Executor::new();
    let task = start(&mut executor, msg(1, "k"));
    let cmd = executor.finish(task, Outcome::DecodeFailed { reason: "expected value".to_string() });
    assert_eq!(cmd.verdict(), Verdict::Nack);
    assert!(matches!(cmd, AckerCommand::Nack { .. }));
    assert_eq!(cmd.msg().message_id.entry_id, 1);
    assert_eq!(executor.in_flight(), 0);
}

#[test]
fn batch_dispatches_at_timeout_with_two_messages() {
    let mut window = BatchWindow::open(3, 2000, 0);
    assert!(matches!(window.on_poll(Poll::Delivered(msg(1, "a")), 100), WindowAction::Continue));
    assert!(matches!(window.on_poll(Poll::Delivered(msg(2, "b")), 500), WindowAction::Continue));
    assert!(matches!(window.on_poll(Poll::Empty, 1500), WindowAction::Continue));
    assert_eq!(window.remaining_ms(1500), 500);
    assert_eq!(window.remaining_ms(2000), 0);
    assert!(matches!(window.on_poll(Poll::Empty, 2000), WindowAction::Dispatch));
    let batch = window.into_batch();
    assert_eq!(batch.len(), 2);
    assert_eq!(batch[0].message_id.entry_id, 1);
    assert_eq!(batch[1].message_id.entry_id, 2);
}

#[test]
fn single_permit_holds_second_until_first_released() {
    let mut executor = Executor::with_max_concurrency(1);
    let first = start(&mut executor, msg(1, "k"));
    assert!(!executor.has_permit());
    let second = match executor.process(ExecutorCommand::Process { msg: msg(2, "k") }) {
        Admission::Deferred(cmd) => cmd,
        Admission::Started(_) => panic!("second message started while the first held the permit"),
    };
    let cmd = executor.finish(first, Outcome::Success);
    assert_eq!(cmd.msg().message_id.entry_id, 1);
    assert!(executor.has_permit());
    let task = match executor.process(second) {
        Admission::Started(task) => task,
        Admission::Deferred(_) => panic!("permit was not released"),
    };
    assert_eq!(task.msg.message_id.entry_id, 2);
    assert_eq!(task.permit.ticket(), 1);
}

#[test]
fn every_admitted_message_settled_exactly_once() {
    let mut executor = Executor::with_max_concurrency(3);
    let a = start(&mut executor, msg(1, "k"));
    let b = start(&mut executor, msg(2, "k"));
    let c = start(&mut executor, msg(3, "j"));
    let mut decided = vec![
        executor.finish(b, Outcome::Success),
        executor.finish(c, Outcome::Faulted),
        executor.finish(a, Outcome::ProcessingFailed { reason: "store down".to_string() }),
    ];
    assert_eq!(executor.in_flight(), 0);
    assert_eq!(executor.admitted(), 3);
    decided.sort_by_key(|d| d.msg().message_id.entry_id);
    let ids: Vec<u64> = decided.iter().map(|d| d.msg().message_id.entry_id).collect();
    assert_eq!(ids, vec![1, 2, 3]);
    let verdicts: Vec<Verdict> = decided.iter().map(|d| d.verdict()).collect();
    assert_eq!(verdicts, vec![Verdict::Nack, Verdict::Ack, Verdict::Nack]);
}

#[test]
fn released_permit_is_no_longer_held() {
    let mut executor = Executor::with_max_concurrency(2);
    let a = start(&mut executor, msg(1, "k"));
    let b = start(&mut executor, msg(2, "k"));
    assert!(executor.holds(&a.permit));
    assert!(executor.holds(&b.permit));
    assert_eq!(a.permit.ticket(), 0);
    assert_eq!(b.permit.ticket(), 1);
    let _ = executor.finish(a, Outcome::Faulted);
    assert!(executor.holds(&b.permit));
    assert_eq!(executor.in_flight(), 1);
    let c = start(&mut executor, msg(3, "k"));
    assert_eq!(c.permit.ticket(), 2);
    assert_eq!(executor.in_flight(), 2);
}

#[test]
fn same_key_messages_may_settle_out_of_order() {
    let mut executor = Executor::with_max_concurrency(4);
    let first = start(&mut executor, msg(1, "10"));
    let second = start(&mut executor, msg(2, "10"));
    let late = executor.finish(second, Outcome::Success);
    let early = executor.finish(first, Outcome::Success);
    assert_eq!(late.msg().message_id.entry_id, 2);
    assert_eq!(early.msg().message_id.entry_id, 1);
    let acker = Acker::new();
    let call_late = acker.handle_msg(late);
    let call_early = acker.handle_msg(early);
    assert_eq!(call_late.message_id.entry_id, 2);
    assert_eq!(call_early.message_id.entry_id, 1);
    assert!(matches!(acker.after_call(call_late, true), AckerStep::Settled));
    assert!(matches!(acker.after_call(call_early, true), AckerStep::Settled));
}

#[test]
fn zero_ceiling_admits_nothing() {
    let mut executor = Executor::with_max_concurrency(0);
    assert!(deferred(&mut executor, msg(1, "k")));
    assert_eq!(executor.admitted(), 0);
}

#[test]
fn default_executor_ceiling() {
    let executor = Executor::new();
    assert_eq!(executor.max_concurrency(), 100);
    assert_eq!(DEFAULT_MAX_CONCURRENCY, 100);
    assert!(executor.can_issue());
    assert_eq!(executor.in_flight(), 0);
}

#[test]
fn outcome_verdicts() {
    assert_eq!(Outcome::Success.verdict(), Verdict::Ack);
    assert_eq!(Outcome::DecodeFailed { reason: "x".to_string() }.verdict(), Verdict::Nack);
    assert_eq!(Outcome::ProcessingFailed { reason: "x".to_string() }.verdict(), Verdict::Nack);
    assert_eq!(Outcome::Faulted.verdict(), Verdict::Nack);
}

#[test]
fn acker_addresses_topic_and_id() {
    let acker = Acker::new();
    let m = msg(42, "k");
    let call = acker.handle_msg(AckerCommand::decide(Verdict::Nack, m));
    assert_eq!(call.topic, "test");
    assert_eq!(call.message_id, MessageId { ledger_id: 7, entry_id: 42, partition: -1, batch_index: -1 });
    assert_eq!(call.verdict, Verdict::Nack);
    assert_eq!(call.retries, 0);
}

#[test]
fn acker_retries_then_gives_up() {
    let acker = Acker::with_max_retries(2);
    let call = acker.handle_msg(AckerCommand::Ack { msg: msg(1, "k") });
    let call = match acker.after_call(call, false) {
        AckerStep::Retry(next) => next,
        _ => panic!("expected a retry"),
    };
    assert_eq!(call.retries, 1);
    let call = match acker.after_call(call, false) {
        AckerStep::Retry(next) => next,
        _ => panic!("expected a retry"),
    };
    assert_eq!(call.retries, 2);
    assert_eq!(call.verdict, Verdict::Ack);
    match acker.after_call(call, false) {
        AckerStep::GaveUp(last) => assert_eq!(last.retries, 2),
        _ => panic!("expected to give up"),
    }
}

#[test]
fn acker_without_retries_gives_up_at_once() {
    let acker = Acker::with_max_retries(0);
    let call = acker.handle_msg(AckerCommand::Nack { msg: msg(1, "k") });
    assert!(matches!(acker.after_call(call, false), AckerStep::GaveUp(_)));
    assert_eq!(Acker::new().max_retries(), DEFAULT_MAX_RETRIES);
}

#[test]
fn receiver_forwards_and_polls_again() {
    let mut receiver = Receiver::new();
    match receiver.consume(Poll::Delivered(msg(9, "k"))) {
        ReceiverAction::Forward(ExecutorCommand::Process { msg }) => assert_eq!(msg.message_id.entry_id, 9),
        _ => panic!("expected a forward"),
    }
    assert!(matches!(receiver.consume(Poll::Empty), ReceiverAction::PollAgain));
    assert_eq!(receiver.failures(), 0);
}

#[test]
fn receiver_backs_off_on_failures() {
    let mut receiver = Receiver::with_backoff(100, 1000);
    let mut delays = Vec::new();
    for _ in 0..6 {
        match receiver.consume(Poll::Failed) {
            ReceiverAction::Backoff { delay_ms } => delays.push(delay_ms),
            _ => panic!("expected a backoff"),
        }
    }
    assert_eq!(delays, vec![100, 200, 400, 800, 1000, 1000]);
    assert_eq!(receiver.failures(), 6);
    assert!(matches!(receiver.consume(Poll::Delivered(msg(1, "k"))), ReceiverAction::Forward(_)));
    assert_eq!(receiver.failures(), 0);
    assert!(matches!(receiver.consume(Poll::Failed), ReceiverAction::Backoff { delay_ms: 100 }));
}

#[test]
fn backoff_delay_values() {
    assert_eq!(backoff_delay_ms(100, 10000, 1), 100);
    assert_eq!(backoff_delay_ms(100, 10000, 3), 400);
    assert_eq!(backoff_delay_ms(100, 10000, 100), 10000);
    assert_eq!(backoff_delay_ms(0, 10000, 50), 0);
    assert_eq!(backoff_delay_ms(500, 300, 1), 300);
    assert_eq!(backoff_delay_ms(u64::MAX / 2 + 1, u64::MAX, 2), u64::MAX);
    assert_eq!(backoff_delay_ms(1, u64::MAX, u32::MAX), u64::MAX);
}

#[test]
fn batch_dispatches_when_full() {
    let mut window = BatchWindow::open(2, 2000, 0);
    assert!(matches!(window.on_poll(Poll::Delivered(msg(1, "a")), 10), WindowAction::Continue));
    assert!(!window.is_full());
    assert!(matches!(window.on_poll(Poll::Delivered(msg(2, "a")), 20), WindowAction::Dispatch));
    assert!(window.is_full());
    assert_eq!(window.len(), 2);
}

#[test]
fn batch_dispatches_after_poll_failure() {
    let mut window = BatchWindow::open(5, 2000, 1000);
    assert!(matches!(window.on_poll(Poll::Delivered(msg(1, "a")), 1010), WindowAction::Continue));
    assert!(matches!(window.on_poll(Poll::Failed, 1020), WindowAction::Dispatch));
    assert_eq!(window.into_batch().len(), 1);
}

#[test]
fn batch_deadline_saturates() {
    let window = BatchWindow::open(5, 2000, u64::MAX - 10);
    assert_eq!(window.remaining_ms(u64::MAX - 10), 10);
}

#[test]
fn batch_is_processed_under_the_shared_ceiling() {
    let config = PipelineConfig::batched().with_max_concurrency(2);
    let mut window = config.open_window(0).unwrap();
    for n in 1..=3 {
        let _ = window.on_poll(Poll::Delivered(msg(n, "k")), 5);
    }
    let mut executor = config.executor();
    let mut pending: Vec<Message> = window.into_batch();
    pending.reverse();
    let mut running: Vec<Task> = Vec::new();
    let mut decided = 0;
    while let Some(m) = pending.pop() {
        match executor.process(ExecutorCommand::Process { msg: m }) {
            Admission::Started(task) => running.push(task),
            Admission::Deferred(ExecutorCommand::Process { msg }) => {
                pending.push(msg);
                let _ = executor.finish(running.remove(0), Outcome::Success);
                decided += 1;
            }
        }
        assert!(executor.in_flight() <= 2);
    }
    while let Some(task) = running.pop() {
        let _ = executor.finish(task, Outcome::Success);
        decided += 1;
    }
    assert_eq!(decided, 3);
    assert_eq!(executor.in_flight(), 0);
    assert_eq!(per_task_nanos(3_000, decided), Some(1_000));
}

#[test]
fn config_defaults() {
    let config = PipelineConfig::new();
    assert_eq!(config.max_concurrency, 100);
    assert_eq!(config.queue_capacity, 1000);
    assert_eq!(config.redelivery_delay_ms, 60000);
    assert_eq!(config.policy, AdmissionPolicy::Continuous);
    assert!(config.open_window(0).is_none());
    let batched = PipelineConfig::batched();
    assert_eq!(batched.policy, AdmissionPolicy::Windowed { batch_size: DEFAULT_BATCH_SIZE, timeout_ms: DEFAULT_BATCH_TIMEOUT_MS });
    assert_eq!(DEFAULT_BATCH_SIZE, 10000);
    assert_eq!(DEFAULT_BATCH_TIMEOUT_MS, 2000);
    let w = batched.open_window(100).unwrap();
    assert_eq!(w.remaining_ms(100), 2000);
    let c = config.with_policy(AdmissionPolicy::Windowed { batch_size: 3, timeout_ms: 5 });
    assert_eq!(c.open_window(0).unwrap().remaining_ms(1), 4);
}

#[test]
fn per_task_average() {
    assert_eq!(per_task_nanos(1_000_000, 0), None);
    assert_eq!(per_task_nanos(1_000_000, 3), Some(333_333));
    assert_eq!(per_task_nanos(0, 5), Some(0));
}

#[test]
fn gibibytes_round_down() {
    assert_eq!(whole_gib(0), 0);
    assert_eq!(whole_gib(1073741823), 0);
    assert_eq!(whole_gib(17179869184), 16);
    assert_eq!(whole_gib(17179869185), 16);
}

#[test]
fn record_framed_under_its_key() {
    let record = TestData { data: "data".to_string(), partition_key: "10".to_string() };
    let out = record.frame(vec![1, 2, 3]);
    assert_eq!(out.payload, vec![1, 2, 3]);
    assert_eq!(out.partition_key, Some("10".to_string()));
}
