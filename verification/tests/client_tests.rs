use event_store::client::{
    ClientAction, EventStoreClient, EventStoreClientBuilder, FlushOutcome,
    FLUSH_OUTCOME_FAILED_SHOULD_RETRY, FLUSH_OUTCOME_SUCCESS,
};
use event_store::types::{EventBuilder, IdempotentEvent};

/// What the runtime would run next: the flush timer, or a transport call
/// reporting back.
enum PendingCallback {
    Timer,
    Complete(Vec<IdempotentEvent>),
}

/// A deterministic stand-in for the asynchronous runtime around the queue:
/// it performs the queue's actions by remembering the one pending callback
/// and firing it when the clock has reached its due time.
struct TestRuntime {
    timestamp: u64,
    flush_outcome: FlushOutcome,
    schedule_flush_invocations: u32,
    callback_due_at: Option<u64>,
    callback: Option<PendingCallback>,
    flush_invocations: u32,
}

impl TestRuntime {
    fn new() -> TestRuntime {
        TestRuntime {
            timestamp: 0,
            flush_outcome: FLUSH_OUTCOME_SUCCESS,
            schedule_flush_invocations: 0,
            callback_due_at: None,
            callback: None,
            flush_invocations: 0,
        }
    }

    fn handle(&mut self, action: ClientAction) {
        match action {
            ClientAction::Nothing => {}
            ClientAction::Schedule(delay) => {
                self.schedule_flush_invocations += 1;
                self.callback_due_at = Some(self.timestamp + delay);
                self.callback = Some(PendingCallback::Timer);
            }
            ClientAction::Flush(events) => {
                self.flush_invocations += 1;
                self.callback_due_at = Some(self.timestamp);
                self.callback = Some(PendingCallback::Complete(events));
            }
        }
    }

    fn tick(&mut self, client: &mut EventStoreClient) {
        let due = match self.callback_due_at {
            Some(ts) if ts <= self.timestamp => true,
            _ => false,
        };
        if !due {
            return;
        }
        self.callback_due_at = None;
        match self.callback.take() {
            None => {}
            Some(PendingCallback::Timer) => {
                let action = client.flush_batch();
                self.handle(action);
            }
            Some(PendingCallback::Complete(events)) => {
                let outcome = self.flush_outcome;
                let action = client.on_flush_complete(outcome, events, self.timestamp);
                self.handle(action);
            }
        }
    }
}

fn anonymous_id() -> Vec<u8> {
    vec![4]
}

#[test]
fn batch_flushed_when_max_batch_size_reached() {
    let mut runtime = TestRuntime::new();
    let (mut client, action) = EventStoreClientBuilder::new(anonymous_id())
        .with_max_batch_size(5)
        .build(runtime.timestamp);
    runtime.handle(action);

    for i in 0..10 {
        for _ in 0..5 {
            let now = runtime.timestamp;
            let action = client.push_event(EventBuilder::new(i.to_string(), 0).build(), 0, now);
            runtime.handle(action);
        }
        assert_eq!(client.info().events_pending, 0);
        assert_eq!(runtime.flush_invocations, i + 1);
        runtime.tick(&mut client);
    }
}

#[test]
fn batch_flushed_when_flush_delay_reached() {
    let mut runtime = TestRuntime::new();
    let (mut client, action) = EventStoreClientBuilder::new(anonymous_id())
        .with_flush_delay(5_000)
        .build(runtime.timestamp);
    runtime.handle(action);

    for i in 0..10 {
        for _ in 0..5 {
            let now = runtime.timestamp;
            let action = client.push_event(EventBuilder::new(i.to_string(), 0).build(), 0, now);
            runtime.handle(action);
        }
        runtime.timestamp += 4999;
        runtime.tick(&mut client);
        runtime.tick(&mut client);
        assert_eq!(client.info().events_pending, 5);
        assert_eq!(runtime.flush_invocations, i);
        runtime.timestamp += 1;
        runtime.tick(&mut client);
        runtime.tick(&mut client);
        assert_eq!(client.info().events_pending, 0);
        assert_eq!(runtime.flush_invocations, i + 1);
    }
}

#[test]
fn failed_flush_requeues_batch_for_retry() {
    let mut runtime = TestRuntime::new();
    runtime.flush_outcome = FLUSH_OUTCOME_FAILED_SHOULD_RETRY;
    let (mut client, action) = EventStoreClientBuilder::new(anonymous_id())
        .with_max_batch_size(3)
        .build(runtime.timestamp);
    runtime.handle(action);

    for i in 0..3 {
        let now = runtime.timestamp;
        let action = client.push(EventBuilder::new(format!("e{i}"), 0).build(), i as u128, now);
        runtime.handle(action);
    }
    assert_eq!(runtime.flush_invocations, 1);
    assert_eq!(client.info().events_pending, 0);
    assert!(client.info().flush_in_progress);

    // The transport reports a retryable failure: the batch returns to the
    // front of the buffer and a retry gets scheduled.
    runtime.tick(&mut client);
    assert_eq!(client.info().events_pending, 3);
    assert!(!client.info().flush_in_progress);
    assert_eq!(client.info().total_events_flushed, 0);

    // The retry succeeds and the same three events count as delivered.
    runtime.flush_outcome = FLUSH_OUTCOME_SUCCESS;
    runtime.timestamp += 10_000;
    runtime.tick(&mut client); // timer: starts the retry flush
    assert_eq!(runtime.flush_invocations, 2);
    runtime.tick(&mut client); // completion
    assert_eq!(client.info().events_pending, 0);
    assert_eq!(client.info().total_events_flushed, 3);
}

#[test]
fn at_most_one_flush_in_flight() {
    let mut runtime = TestRuntime::new();
    let (mut client, action) = EventStoreClientBuilder::new(anonymous_id())
        .with_max_batch_size(2)
        .build(runtime.timestamp);
    runtime.handle(action);

    for i in 0..2 {
        let now = runtime.timestamp;
        let action = client.push(EventBuilder::new(i.to_string(), 0).build(), i as u128, now);
        runtime.handle(action);
    }
    assert_eq!(runtime.flush_invocations, 1);
    assert!(client.info().flush_in_progress);

    // A full buffer while a flush is in flight must not start a second one.
    for i in 2..4 {
        let now = runtime.timestamp;
        let action = client.push(EventBuilder::new(i.to_string(), 0).build(), i as u128, now);
        assert!(matches!(action, ClientAction::Nothing));
        runtime.handle(action);
    }
    assert_eq!(runtime.flush_invocations, 1);

    // Even the timer firing mid-flight starts nothing.
    let action = client.flush_batch();
    assert!(matches!(action, ClientAction::Nothing));
    assert_eq!(runtime.flush_invocations, 1);
}

#[test]
fn take_events_empties_the_buffer() {
    let mut runtime = TestRuntime::new();
    let (mut client, action) = EventStoreClientBuilder::new(anonymous_id()).build(runtime.timestamp);
    runtime.handle(action);

    let action = client.push(EventBuilder::new("a".to_string(), 1).build(), 42, 0);
    runtime.handle(action);
    let taken = client.take_events();
    assert_eq!(taken.len(), 1);
    assert_eq!(taken[0].idempotency_key, 42);
    assert_eq!(taken[0].name, "a");
    assert_eq!(client.info().events_pending, 0);
}

#[test]
fn builder_reprocesses_preloaded_events() {
    let preloaded = vec![IdempotentEvent {
        idempotency_key: 5,
        name: "restored".to_string(),
        timestamp: 9,
        user: None,
        source: None,
        payload: Vec::new(),
    }];
    let (client, action) = EventStoreClientBuilder::new(anonymous_id())
        .with_flush_delay(1_000)
        .with_events(preloaded)
        .build(100);
    assert_eq!(client.info().events_pending, 1);
    // Restart never flushes synchronously: it schedules.
    assert!(matches!(action, ClientAction::Schedule(1_000)));
    assert_eq!(client.info().next_flush_scheduled, Some(1_100));
}
