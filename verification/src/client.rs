use vstd::prelude::*;

verus! {

use crate::{Milliseconds, TimestampMillis};
use crate::state::event_views;
use crate::types::{Event, IdempotentEvent, IdempotentEventView};

/// How a finished transport flush went.
pub type FlushOutcome = u8;

pub const FLUSH_OUTCOME_SUCCESS: u8 = 0;

pub const FLUSH_OUTCOME_FAILED_SHOULD_RETRY: u8 = 1;

pub const FLUSH_OUTCOME_FAILED_SHOULDNT_RETRY: u8 = 2;

/// The flush delay used when none is chosen: five minutes.
pub const DEFAULT_FLUSH_DELAY: Milliseconds = 300_000;

/// The batch size used when none is chosen.
pub const DEFAULT_MAX_BATCH_SIZE: u32 = 1000;

/// What the caller must do after a queue step: nothing, start a transport
/// flush with the given batch, or (re)schedule the flush timer — which
/// cancels any not-yet-fired one.
pub enum ClientAction {
    Nothing,
    Flush(Vec<IdempotentEvent>),
    Schedule(Milliseconds),
}

/// The mathematical value of a [`ClientAction`].
pub enum ActionView {
    Nothing,
    Flush(Seq<IdempotentEventView>),
    Schedule(Milliseconds),
}

impl View for ClientAction {
    type V = ActionView;

    open spec fn view(&self) -> ActionView {
        match self {
            ClientAction::Nothing => ActionView::Nothing,
            ClientAction::Flush(events) => ActionView::Flush(event_views(events@)),
            ClientAction::Schedule(delay) => ActionView::Schedule(*delay),
        }
    }
}

/// The producer queue's state as mathematics.
#[verifier::ext_equal]
pub struct ClientModel {
    /// The store instance flushed to.
    pub canister_id: Seq<u8>,
    /// How long after the first pending event a flush fires.
    pub flush_delay: Milliseconds,
    /// How many events one flush carries at most.
    pub max_batch_size: int,
    /// The buffered events, oldest first.
    pub pending: Seq<IdempotentEventView>,
    /// When the scheduled flush will fire, if one is scheduled.
    pub next_flush_scheduled: Option<TimestampMillis>,
    /// Whether a transport flush is in flight.
    pub flush_in_progress: bool,
    /// How many events have been delivered.
    pub total_events_flushed: u64,
}

/// `a + b`, stopping at the largest value.
pub open spec fn sat_add_u64(a: u64, b: int) -> u64 {
    if a + b > u64::MAX {
        u64::MAX
    } else {
        (a + b) as u64
    }
}

/// Scheduling a flush after `delay`: the timer is (re)set, cancelling any
/// not-yet-fired one.
pub open spec fn schedule_transition(m: ClientModel, delay: Milliseconds, now: TimestampMillis) -> (
    ClientModel,
    ActionView,
) {
    (
        ClientModel { next_flush_scheduled: Some((now + delay) as u64), ..m },
        ActionView::Schedule(delay),
    )
}

/// Starting a flush: the timer is cleared; if nothing is pending or a flush
/// is already in flight, nothing more happens; otherwise the oldest batch
/// leaves the buffer and goes to the transport, marking a flush in flight.
pub open spec fn flush_transition(m: ClientModel) -> (ClientModel, ActionView) {
    let m1 = ClientModel { next_flush_scheduled: None, ..m };
    if m.flush_in_progress || m.pending.len() == 0 {
        (m1, ActionView::Nothing)
    } else {
        let k = if m.max_batch_size < m.pending.len() {
            m.max_batch_size
        } else {
            m.pending.len() as int
        };
        (
            ClientModel { pending: m.pending.skip(k), flush_in_progress: true, ..m1 },
            ActionView::Flush(m.pending.take(k)),
        )
    }
}

/// What the queue does after its buffer changed: nothing while a flush is in
/// flight; at a full batch, flush at once (or on an immediate timer);
/// otherwise make sure a flush is scheduled.
pub open spec fn process_transition(
    m: ClientModel,
    can_flush_immediately: bool,
    now: TimestampMillis,
) -> (ClientModel, ActionView) {
    if m.flush_in_progress {
        (m, ActionView::Nothing)
    } else if m.pending.len() >= m.max_batch_size {
        if can_flush_immediately {
            flush_transition(m)
        } else {
            schedule_transition(m, 0, now)
        }
    } else if m.next_flush_scheduled is None {
        schedule_transition(m, m.flush_delay, now)
    } else {
        (m, ActionView::Nothing)
    }
}

/// One event, already tokened, entering the buffer.
pub open spec fn push_transition(
    m: ClientModel,
    e: IdempotentEventView,
    can_flush_immediately: bool,
    now: TimestampMillis,
) -> (ClientModel, ActionView) {
    process_transition(ClientModel { pending: m.pending.push(e), ..m }, can_flush_immediately, now)
}

/// A finished flush reporting back: the in-flight mark clears; a delivered
/// batch is counted; a batch that failed retryably returns to the front of
/// the buffer, so it is retried before anything newer; then scheduling is
/// re-evaluated if events remain.
pub open spec fn complete_transition(
    m: ClientModel,
    outcome: FlushOutcome,
    events: Seq<IdempotentEventView>,
    now: TimestampMillis,
) -> (ClientModel, ActionView) {
    let m1 = ClientModel { flush_in_progress: false, ..m };
    let m2 = if outcome == FLUSH_OUTCOME_SUCCESS {
        ClientModel {
            total_events_flushed: sat_add_u64(m.total_events_flushed, events.len() as int),
            ..m1
        }
    } else if outcome == FLUSH_OUTCOME_FAILED_SHOULD_RETRY {
        ClientModel { pending: events + m.pending, ..m1 }
    } else {
        m1
    };
    if m2.pending.len() > 0 {
        process_transition(m2, false, now)
    } else {
        (m2, ActionView::Nothing)
    }
}

/// The producer-side batching queue, as a state machine: every entry point
/// returns the one action the surrounding runtime must perform. Mutual
/// exclusion around the state, the timer itself and the transport call are
/// the runtime's business.
pub struct EventStoreClient {
    event_store_canister_id: Vec<u8>,
    flush_delay: Milliseconds,
    max_batch_size: usize,
    events: Vec<IdempotentEvent>,
    next_flush_scheduled: Option<TimestampMillis>,
    flush_in_progress: bool,
    total_events_flushed: u64,
}

/// A point-in-time description of the queue.
pub struct EventStoreClientInfo {
    pub event_store_canister_id: Vec<u8>,
    pub flush_delay: Milliseconds,
    pub max_batch_size: u32,
    pub events_pending: u32,
    pub flush_in_progress: bool,
    pub next_flush_scheduled: Option<TimestampMillis>,
    pub total_events_flushed: u64,
}

impl EventStoreClient {
    /// The queue's mathematical state.
    pub closed spec fn model(&self) -> ClientModel {
        ClientModel {
            canister_id: self.event_store_canister_id@,
            flush_delay: self.flush_delay,
            max_batch_size: self.max_batch_size as int,
            pending: event_views(self.events@),
            next_flush_scheduled: self.next_flush_scheduled,
            flush_in_progress: self.flush_in_progress,
            total_events_flushed: self.total_events_flushed,
        }
    }

    /// Runs the scheduling decision after the buffer changed.
    fn process_events(&mut self, can_flush_immediately: bool, now: TimestampMillis) -> (r:
        ClientAction)
        requires
            now + old(self).model().flush_delay <= u64::MAX,
        ensures
            (final(self).model(), r@) == process_transition(
                old(self).model(),
                can_flush_immediately,
                now,
            ),
    {
        if self.flush_in_progress {
            return ClientAction::Nothing;
        }
        if self.events.len() >= self.max_batch_size {
            if can_flush_immediately {
                self.flush_batch()
            } else {
                self.schedule_flush(0, now)
            }
        } else if self.next_flush_scheduled.is_none() {
            let delay = self.flush_delay;
            self.schedule_flush(delay, now)
        } else {
            ClientAction::Nothing
        }
    }

    /// Sets the flush timer.
    fn schedule_flush(&mut self, delay: Milliseconds, now: TimestampMillis) -> (r: ClientAction)
        requires
            now + delay <= u64::MAX,
        ensures
            (final(self).model(), r@) == schedule_transition(old(self).model(), delay, now),
    {
        self.next_flush_scheduled = Some(now + delay);
        ClientAction::Schedule(delay)
    }

    /// The flush timer fired (or an immediate flush was decided): clears the
    /// timer and hands the oldest batch to the transport — unless a flush is
    /// already in flight or nothing is pending, so at most one flush is ever
    /// in flight.
    pub fn flush_batch(&mut self) -> (r: ClientAction)
        ensures
            (final(self).model(), r@) == flush_transition(old(self).model()),
    {
        self.next_flush_scheduled = None;
        if self.flush_in_progress || self.events.len() == 0 {
            return ClientAction::Nothing;
        }
        self.flush_in_progress = true;
        let k = if self.max_batch_size < self.events.len() {
            self.max_batch_size
        } else {
            self.events.len()
        };
        let rest = self.events.split_off(k);
        let batch = self.events.split_off(0);
        self.events = rest;
        proof {
            assert(event_views(self.events@) =~= old(self).model().pending.skip(k as int));
            assert(event_views(batch@) =~= old(self).model().pending.take(k as int));
        }
        ClientAction::Flush(batch)
    }

    /// Buffers one event under a fresh idempotency token and reacts: a full
    /// buffer flushes at once. Never blocks on the network; the returned
    /// action tells the runtime what to start.
    pub fn push(&mut self, event: Event, idempotency_key: u128, now: TimestampMillis) -> (r:
        ClientAction)
        requires
            now + old(self).model().flush_delay <= u64::MAX,
        ensures
            (final(self).model(), r@) == push_transition(
                old(self).model(),
                crate::types::IdempotentEventView {
                    idempotency_key,
                    name: event@.name,
                    timestamp: event@.timestamp,
                    user: event@.user,
                    source: event@.source,
                    payload: event@.payload,
                },
                true,
                now,
            ),
    {
        let ghost m0 = self.model();
        let idem = event.to_idempotent(idempotency_key);
        let ghost iview = idem@;
        self.events.push(idem);
        proof {
            assert(event_views(self.events@) =~= m0.pending.push(iview));
        }
        let r = self.process_events(true, now);
        r
    }

    /// Buffers one event; the older name for [`Self::push`].
    pub fn push_event(&mut self, event: Event, idempotency_key: u128, now: TimestampMillis) -> (r:
        ClientAction)
        requires
            now + old(self).model().flush_delay <= u64::MAX,
        ensures
            (final(self).model(), r@) == push_transition(
                old(self).model(),
                crate::types::IdempotentEventView {
                    idempotency_key,
                    name: event@.name,
                    timestamp: event@.timestamp,
                    user: event@.user,
                    source: event@.source,
                    payload: event@.payload,
                },
                true,
                now,
            ),
    {
        self.push(event, idempotency_key, now)
    }

    /// Buffers a batch of already-tokened events, then reacts once.
    pub fn push_many(
        &mut self,
        events: Vec<IdempotentEvent>,
        can_flush_immediately: bool,
        now: TimestampMillis,
    ) -> (r: ClientAction)
        requires
            now + old(self).model().flush_delay <= u64::MAX,
        ensures
            (final(self).model(), r@) == process_transition(
                ClientModel {
                    pending: old(self).model().pending + event_views(events@),
                    ..old(self).model()
                },
                can_flush_immediately,
                now,
            ),
    {
        let ghost m0 = self.model();
        let ghost added = event_views(events@);
        let mut incoming = events;
        self.events.append(&mut incoming);
        proof {
            assert(event_views(self.events@) =~= m0.pending + added);
        }
        self.process_events(can_flush_immediately, now)
    }

    /// The transport reported a finished flush.
    pub fn on_flush_complete(
        &mut self,
        outcome: FlushOutcome,
        events: Vec<IdempotentEvent>,
        now: TimestampMillis,
    ) -> (r: ClientAction)
        requires
            now + old(self).model().flush_delay <= u64::MAX,
        ensures
            (final(self).model(), r@) == complete_transition(
                old(self).model(),
                outcome,
                event_views(events@),
                now,
            ),
    {
        let ghost m0 = self.model();
        let ghost eviews = event_views(events@);
        self.flush_in_progress = false;
        if outcome == FLUSH_OUTCOME_SUCCESS {
            let n = events.len() as u64;
            self.total_events_flushed = if self.total_events_flushed <= u64::MAX - n {
                self.total_events_flushed + n
            } else {
                u64::MAX
            };
        } else if outcome == FLUSH_OUTCOME_FAILED_SHOULD_RETRY {
            let mut requeued = events;
            let mut old_pending = self.events.split_off(0);
            requeued.append(&mut old_pending);
            self.events = requeued;
            proof {
                assert(event_views(self.events@) =~= eviews + m0.pending);
            }
        }
        if self.events.len() > 0 {
            self.process_events(false, now)
        } else {
            ClientAction::Nothing
        }
    }

    /// Empties the buffer and hands its contents back.
    pub fn take_events(&mut self) -> (r: Vec<IdempotentEvent>)
        ensures
            event_views(r@) == old(self).model().pending,
            final(self).model() == (ClientModel {
                pending: Seq::<IdempotentEventView>::empty(),
                ..old(self).model()
            }),
    {
        let r = self.events.split_off(0);
        proof {
            assert(event_views(self.events@) =~= Seq::<IdempotentEventView>::empty());
            assert(event_views(r@) =~= old(self).model().pending);
        }
        r
    }

    /// Describes the queue. The pending count saturates at the field's width.
    pub fn info(&self) -> (r: EventStoreClientInfo)
        ensures
            r.event_store_canister_id@ == self.model().canister_id,
            r.flush_delay == self.model().flush_delay,
            r.max_batch_size == self.model().max_batch_size
                || (self.model().max_batch_size > u32::MAX && r.max_batch_size == u32::MAX),
            r.events_pending == self.model().pending.len()
                || (self.model().pending.len() > u32::MAX && r.events_pending == u32::MAX),
            r.flush_in_progress == self.model().flush_in_progress,
            r.next_flush_scheduled == self.model().next_flush_scheduled,
            r.total_events_flushed == self.model().total_events_flushed,
    {
        EventStoreClientInfo {
            event_store_canister_id: crate::state::clone_bytes(&self.event_store_canister_id),
            flush_delay: self.flush_delay,
            max_batch_size: if self.max_batch_size > u32::MAX as usize {
                u32::MAX
            } else {
                self.max_batch_size as u32
            },
            events_pending: if self.events.len() > u32::MAX as usize {
                u32::MAX
            } else {
                self.events.len() as u32
            },
            flush_in_progress: self.flush_in_progress,
            next_flush_scheduled: self.next_flush_scheduled,
            total_events_flushed: self.total_events_flushed,
        }
    }

    /// A detached queue that flushes nowhere: the anonymous instance id and
    /// default settings.
    pub fn null() -> (r: EventStoreClient)
        ensures
            r.model().pending == Seq::<IdempotentEventView>::empty(),
            !r.model().flush_in_progress,
            r.model().next_flush_scheduled is None,
            r.model().flush_delay == DEFAULT_FLUSH_DELAY,
            r.model().max_batch_size == DEFAULT_MAX_BATCH_SIZE,
            r.model().total_events_flushed == 0,
    {
        let mut id: Vec<u8> = Vec::new();
        id.push(4);
        let (client, _action) = EventStoreClientBuilder::new(id).build(0);
        client
    }
}

/// Step-by-step construction of an [`EventStoreClient`].
pub struct EventStoreClientBuilder {
    event_store_canister_id: Vec<u8>,
    flush_delay: Option<Milliseconds>,
    max_batch_size: Option<u32>,
    events: Vec<IdempotentEvent>,
}

impl EventStoreClientBuilder {
    pub fn new(event_store_canister_id: Vec<u8>) -> (r: EventStoreClientBuilder)
        ensures
            r.canister_id_spec() == event_store_canister_id@,
            r.flush_delay_spec() is None,
            r.max_batch_size_spec() is None,
            r.preloaded() == Seq::<IdempotentEventView>::empty(),
    {
        let r = EventStoreClientBuilder {
            event_store_canister_id,
            flush_delay: None,
            max_batch_size: None,
            events: Vec::new(),
        };
        proof {
            assert(r.preloaded() =~= Seq::<IdempotentEventView>::empty());
        }
        r
    }

    pub closed spec fn canister_id_spec(&self) -> Seq<u8> {
        self.event_store_canister_id@
    }

    pub closed spec fn flush_delay_spec(&self) -> Option<Milliseconds> {
        self.flush_delay
    }

    pub closed spec fn max_batch_size_spec(&self) -> Option<u32> {
        self.max_batch_size
    }

    pub closed spec fn preloaded(&self) -> Seq<IdempotentEventView> {
        event_views(self.events@)
    }

    pub fn with_flush_delay(self, duration: Milliseconds) -> (r: EventStoreClientBuilder)
        ensures
            r.flush_delay_spec() == Some(duration),
            r.max_batch_size_spec() == self.max_batch_size_spec(),
            r.canister_id_spec() == self.canister_id_spec(),
            r.preloaded() == self.preloaded(),
    {
        EventStoreClientBuilder { flush_delay: Some(duration), ..self }
    }

    pub fn with_max_batch_size(self, max_batch_size: u32) -> (r: EventStoreClientBuilder)
        ensures
            r.max_batch_size_spec() == Some(max_batch_size),
            r.flush_delay_spec() == self.flush_delay_spec(),
            r.canister_id_spec() == self.canister_id_spec(),
            r.preloaded() == self.preloaded(),
    {
        EventStoreClientBuilder { max_batch_size: Some(max_batch_size), ..self }
    }

    /// Preloads events restored from durable state.
    pub fn with_events(self, events: Vec<IdempotentEvent>) -> (r: EventStoreClientBuilder)
        ensures
            r.preloaded() == event_views(events@),
            r.flush_delay_spec() == self.flush_delay_spec(),
            r.max_batch_size_spec() == self.max_batch_size_spec(),
            r.canister_id_spec() == self.canister_id_spec(),
    {
        EventStoreClientBuilder { events, ..self }
    }

    /// Builds the queue. If events were preloaded, scheduling is re-evaluated
    /// at once (without an immediate flush), exactly as after a restart.
    pub fn build(self, now: TimestampMillis) -> (r: (EventStoreClient, ClientAction))
        requires
            now + (match self.flush_delay_spec() {
                Some(d) => d,
                None => DEFAULT_FLUSH_DELAY,
            }) <= u64::MAX,
        ensures
            ({
                let start = ClientModel {
                    canister_id: self.canister_id_spec(),
                    flush_delay: match self.flush_delay_spec() {
                        Some(d) => d,
                        None => DEFAULT_FLUSH_DELAY,
                    },
                    max_batch_size: (match self.max_batch_size_spec() {
                        Some(s) => s,
                        None => DEFAULT_MAX_BATCH_SIZE,
                    }) as int,
                    pending: self.preloaded(),
                    next_flush_scheduled: None,
                    flush_in_progress: false,
                    total_events_flushed: 0,
                };
                if self.preloaded().len() > 0 {
                    (r.0.model(), r.1@) == process_transition(start, false, now)
                } else {
                    r.0.model() == start && r.1@ == ActionView::Nothing
                }
            }),
    {
        let flush_delay = match self.flush_delay {
            Some(d) => d,
            None => DEFAULT_FLUSH_DELAY,
        };
        let max_batch_size = match self.max_batch_size {
            Some(s) => s,
            None => DEFAULT_MAX_BATCH_SIZE,
        } as usize;
        let any = self.events.len() > 0;
        let mut client = EventStoreClient {
            event_store_canister_id: self.event_store_canister_id,
            flush_delay,
            max_batch_size,
            events: self.events,
            next_flush_scheduled: None,
            flush_in_progress: false,
            total_events_flushed: 0,
        };
        let action = if any {
            client.process_events(false, now)
        } else {
            ClientAction::Nothing
        };
        (client, action)
    }
}

} // verus!
