use vstd::prelude::*;

verus! {

use crate::{Milliseconds, TimestampMillis};
use crate::aggregation::{
    bumped_buckets, capped, day_key_of, hour_key_of, BucketKey, IntegrationsData,
    HOURLY_MAX_ENTRIES,
};
use crate::anonymizer::Salt;
use crate::bucketed;
use crate::deduper::{has_token, surviving, sat_sub, EventDeduper};
use crate::log::{resolved_event, Events};
use crate::types::{IdempotentEvent, IdempotentEventView, IndexedEventView, TaggedString};

/// The whole store's state as mathematics: what every contract of the store
/// speaks of.
#[verifier::ext_equal]
pub struct StateModel {
    /// Recorded (token, first-seen time) pairs of the dedup window.
    pub dedup: Seq<(u128, TimestampMillis)>,
    /// The dedup window length.
    pub dedup_window: Milliseconds,
    /// When the dedup window last pruned.
    pub dedup_last_pruned: TimestampMillis,
    /// The served form of every stored event, oldest first.
    pub log: Seq<IndexedEventView>,
    /// The index of the first stored event.
    pub log_first: u64,
    /// Events accepted but awaiting the salt, in acceptance order.
    pub deferred: Seq<IdempotentEventView>,
    /// The salt, once acquired.
    pub salt: Option<Seq<u8>>,
    /// The configured timestamp granularity.
    pub granularity: Option<Milliseconds>,
    /// The log index the aggregation index has consumed up to.
    pub agg_next: u64,
    /// The aggregation index's daily buckets.
    pub daily: Seq<(BucketKey, Seq<(Seq<char>, u32)>)>,
    /// The aggregation index's hourly buckets.
    pub hourly: Seq<(BucketKey, Seq<(Seq<char>, u32)>)>,
    /// The deprecated store's events awaiting migration.
    pub legacy: Seq<IndexedEventView>,
    /// The next un-migrated position in the deprecated store.
    pub cursor: u64,
}

/// Whether ingesting this event requires the salt: some field of it is tagged
/// for anonymization.
pub open spec fn needs_salt(e: IdempotentEventView) -> bool {
    ||| (e.user matches Some(TaggedString::Anonymize(_)))
    ||| (e.source matches Some(TaggedString::Anonymize(_)))
}

/// An all-zero placeholder used in place of the salt for events no field of
/// which is anonymized; their resolution does not depend on it.
pub open spec fn zero_salt() -> Seq<u8> {
    Seq::new(32, |_i: int| 0u8)
}

/// The salt resolution uses: the acquired one, or the placeholder that
/// un-anonymized events resolve identically under.
pub open spec fn salt_of(m: StateModel) -> Seq<u8> {
    match m.salt {
        Some(s) => s,
        None => zero_salt(),
    }
}

/// The event as ingestion stores it: its timestamp bucketed to the configured
/// granularity.
pub open spec fn bucketed_event(
    e: IdempotentEventView,
    granularity: Option<Milliseconds>,
) -> IdempotentEventView {
    IdempotentEventView { timestamp: bucketed(e.timestamp, granularity), ..e }
}

/// Whether a dedup call at `now` prunes first.
pub open spec fn dedup_due(m: StateModel, now: TimestampMillis) -> bool {
    sat_sub(now, m.dedup_last_pruned) > m.dedup_window / 2
}

/// One event delivered to the aggregation index: ignored unless its index is
/// the next expected; an event without a user counts nothing; otherwise the
/// user's daily and hourly counters are bumped and the oldest hourly buckets
/// are evicted down to the cap.
pub open spec fn feed_agg(m: StateModel, ie: IndexedEventView) -> StateModel {
    if ie.index != m.agg_next {
        m
    } else {
        let m2 = StateModel { agg_next: (ie.index + 1) as u64, ..m };
        match ie.user {
            None => m2,
            Some(u) => StateModel {
                daily: bumped_buckets(m.daily, day_key_of(ie.timestamp), u),
                hourly: capped(
                    bumped_buckets(m.hourly, hour_key_of(ie.timestamp), u),
                    HOURLY_MAX_ENTRIES as int,
                ),
                ..m2
            },
        }
    }
}

/// One (already bucketed) event appended to the log under the next gapless
/// index, then delivered to the aggregation index.
pub open spec fn ingest_transition(m: StateModel, eb: IdempotentEventView) -> StateModel {
    let idx = (m.log_first + m.log.len()) as u64;
    let ie = resolved_event(eb, salt_of(m), idx);
    feed_agg(StateModel { log: m.log.push(ie), ..m }, ie)
}

/// What one pushed event does to the store: the dedup window decides first;
/// an accepted event is bucketed, then stored — or deferred when it needs the
/// salt before the salt exists.
pub open spec fn push_transition(
    m: StateModel,
    e: IdempotentEventView,
    now: TimestampMillis,
) -> StateModel {
    let kept = if dedup_due(m, now) {
        surviving(m.dedup, now, m.dedup_window)
    } else {
        m.dedup
    };
    let lp = if dedup_due(m, now) {
        now
    } else {
        m.dedup_last_pruned
    };
    let accepted = !has_token(kept, e.idempotency_key);
    let m1 = StateModel {
        dedup: if accepted {
            kept.push((e.idempotency_key, now))
        } else {
            kept
        },
        dedup_last_pruned: lp,
        ..m
    };
    if !accepted {
        m1
    } else {
        let eb = bucketed_event(e, m.granularity);
        if m.salt is None && needs_salt(eb) {
            StateModel { deferred: m1.deferred.push(eb), ..m1 }
        } else {
            ingest_transition(m1, eb)
        }
    }
}

/// A whole batch pushed in order.
pub open spec fn batch_transition(
    m: StateModel,
    events: Seq<IdempotentEventView>,
    now: TimestampMillis,
) -> StateModel
    decreases events.len(),
{
    if events.len() == 0 {
        m
    } else {
        batch_transition(push_transition(m, events[0], now), events.skip(1), now)
    }
}

/// The views of a vector of incoming events.
pub open spec fn event_views(events: Seq<IdempotentEvent>) -> Seq<IdempotentEventView> {
    Seq::new(events.len(), |i: int| events[i]@)
}

/// The views of a vector of caller ids.
pub open spec fn id_views(ids: Seq<Vec<u8>>) -> Seq<Seq<u8>> {
    Seq::new(ids.len(), |i: int| ids[i]@)
}

/// Whether `x` stands in the list.
pub open spec fn list_contains(list: Seq<Seq<u8>>, x: Seq<u8>) -> bool {
    exists|i: int| 0 <= i < list.len() && list[i] == x
}

/// Byte-wise equality of two byte vectors.
fn bytes_eq(a: &Vec<u8>, b: &Vec<u8>) -> (r: bool)
    ensures
        r == (a@ == b@),
{
    if a.len() != b.len() {
        proof {
            assert(a@.len() != b@.len());
        }
        return false;
    }
    let n = a.len();
    let mut i: usize = 0;
    while i < n
        invariant
            n == a@.len() == b@.len(),
            0 <= i <= n,
            forall|j: int| 0 <= j < i ==> a@[j] == b@[j],
        decreases n - i,
    {
        if a[i] != b[i] {
            return false;
        }
        i += 1;
    }
    proof {
        assert(a@ =~= b@);
    }
    true
}

/// Whether the caller id `x` stands in `list`.
fn contains_bytes(list: &Vec<Vec<u8>>, x: &Vec<u8>) -> (r: bool)
    ensures
        r == list_contains(id_views(list@), x@),
{
    let n = list.len();
    let mut i: usize = 0;
    while i < n
        invariant
            n == list@.len(),
            0 <= i <= n,
            forall|j: int| 0 <= j < i ==> id_views(list@)[j] != x@,
        decreases n - i,
    {
        if bytes_eq(&list[i], x) {
            proof {
                assert(id_views(list@)[i as int] == x@);
            }
            return true;
        }
        i += 1;
    }
    false
}

/// One store instance's entire durable state: allow-lists and granularity
/// fixed at initialization, the event log, the dedup window, the aggregation
/// index, the salt, the deferred events, and the deprecated store still being
/// migrated.
pub struct State {
    push_events_whitelist: Vec<Vec<u8>>,
    read_events_whitelist: Vec<Vec<u8>>,
    remove_events_whitelist: Vec<Vec<u8>>,
    time_granularity: Option<Milliseconds>,
    events: Events,
    event_deduper: EventDeduper,
    integrations_data: IntegrationsData,
    salt: Salt,
    deferred: Vec<IdempotentEvent>,
    legacy_events: Vec<crate::types::IndexedEvent>,
    migration_cursor: u64,
}

impl State {
    /// The store's mathematical state.
    pub closed spec fn model(&self) -> StateModel {
        StateModel {
            dedup: self.event_deduper.entries(),
            dedup_window: self.event_deduper.window(),
            dedup_last_pruned: self.event_deduper.last_pruned(),
            log: self.events.indexed(),
            log_first: self.events.first_index(),
            deferred: event_views(self.deferred@),
            salt: if self.salt.is_set() {
                Some(self.salt.bytes())
            } else {
                None
            },
            granularity: self.time_granularity,
            agg_next: self.integrations_data.dapp_radar.next_index(),
            daily: self.integrations_data.dapp_radar.daily_buckets(),
            hourly: self.integrations_data.dapp_radar.hourly_buckets(),
            legacy: crate::log::views_of(self.legacy_events@),
            cursor: self.migration_cursor,
        }
    }

    /// The push allow-list.
    pub closed spec fn push_list(&self) -> Seq<Seq<u8>> {
        id_views(self.push_events_whitelist@)
    }

    /// The read allow-list.
    pub closed spec fn read_list(&self) -> Seq<Seq<u8>> {
        id_views(self.read_events_whitelist@)
    }

    /// The remove allow-list.
    pub closed spec fn remove_list(&self) -> Seq<Seq<u8>> {
        id_views(self.remove_events_whitelist@)
    }

    /// The event log (for contracts that speak of reads).
    pub closed spec fn log(&self) -> Events {
        self.events
    }

    /// How many strings the log's intern table holds; machine limits on
    /// ingestion are stated over it.
    pub closed spec fn interned(&self) -> int {
        self.events.strings().len() as int
    }

    /// Well-formedness: every component is consistent, a configured
    /// granularity is non-zero, and the aggregation cursor never runs ahead
    /// of the log.
    pub closed spec fn wf(&self) -> bool {
        &&& self.events.wf()
        &&& self.event_deduper.wf()
        &&& self.integrations_data.wf()
        &&& self.time_granularity != Some(0u64)
    }

    /// The allow-lists and granularity never change after initialization.
    pub open spec fn config_unchanged(&self, other: &State) -> bool {
        &&& self.push_list() == other.push_list()
        &&& self.read_list() == other.read_list()
        &&& self.remove_list() == other.remove_list()
        &&& self.model().granularity == other.model().granularity
        &&& self.model().dedup_window == other.model().dedup_window
    }

    /// A fresh store: empty log, empty dedup window, no salt, and the given
    /// write-once configuration.
    pub fn new(
        push_events_whitelist: Vec<Vec<u8>>,
        read_events_whitelist: Vec<Vec<u8>>,
        remove_events_whitelist: Vec<Vec<u8>>,
        time_granularity: Option<Milliseconds>,
    ) -> (r: State)
        requires
            time_granularity != Some(0u64),
        ensures
            r.wf(),
            r.push_list() == id_views(push_events_whitelist@),
            r.read_list() == id_views(read_events_whitelist@),
            r.remove_list() == id_views(remove_events_whitelist@),
            r.model().granularity == time_granularity,
            r.model().dedup_window == crate::deduper::DEFAULT_WINDOW_DURATION,
            r.model().dedup == Seq::<(u128, TimestampMillis)>::empty(),
            r.model().dedup_last_pruned == 0,
            r.model().log == Seq::<IndexedEventView>::empty(),
            r.model().log_first == 0,
            r.model().deferred == Seq::<IdempotentEventView>::empty(),
            r.model().salt is None,
            r.model().agg_next == 0,
            r.model().daily == Seq::<(BucketKey, Seq<(Seq<char>, u32)>)>::empty(),
            r.model().hourly == Seq::<(BucketKey, Seq<(Seq<char>, u32)>)>::empty(),
            r.model().legacy == Seq::<IndexedEventView>::empty(),
            r.model().cursor == 0,
            r.interned() == 0,
    {
        let r = State {
            push_events_whitelist,
            read_events_whitelist,
            remove_events_whitelist,
            time_granularity,
            events: Events::new(),
            event_deduper: EventDeduper::default(),
            integrations_data: IntegrationsData::new(),
            salt: Salt::new(),
            deferred: Vec::new(),
            legacy_events: Vec::new(),
            migration_cursor: 0,
        };
        proof {
            assert(r.model().deferred =~= Seq::<IdempotentEventView>::empty());
            assert(r.model().legacy =~= Seq::<IndexedEventView>::empty());
            assert(r.model().log =~= Seq::<IndexedEventView>::empty());
        }
        r
    }

    /// Whether `caller` may push events.
    pub fn can_caller_push_events(&self, caller: &Vec<u8>) -> (r: bool)
        ensures
            r == list_contains(self.push_list(), caller@),
    {
        contains_bytes(&self.push_events_whitelist, caller)
    }

    /// Whether `caller` may read events.
    pub fn can_caller_read_events(&self, caller: &Vec<u8>) -> (r: bool)
        ensures
            r == list_contains(self.read_list(), caller@),
    {
        contains_bytes(&self.read_events_whitelist, caller)
    }

    /// Whether `caller` may remove events.
    pub fn can_caller_remove_events(&self, caller: &Vec<u8>) -> (r: bool)
        ensures
            r == list_contains(self.remove_list(), caller@),
    {
        contains_bytes(&self.remove_events_whitelist, caller)
    }

    /// Whether this event's fields can be resolved right now: either nothing
    /// in it is anonymized, or the salt exists.
    fn can_resolve(&self, event: &IdempotentEvent) -> (r: bool)
        ensures
            r == (!needs_salt(event@) || self.model().salt is Some),
    {
        let anonymizes = match &event.user {
            Some(crate::types::Anonymizable::Anonymize(_)) => true,
            _ => match &event.source {
                Some(crate::types::Anonymizable::Anonymize(_)) => true,
                _ => false,
            },
        };
        if !anonymizes {
            true
        } else {
            match self.salt.get() {
                Some(_) => true,
                None => false,
            }
        }
    }

    /// Stores one accepted, already-bucketed event: appends it to the log
    /// under the next index and feeds it to the aggregation index.
    fn store_event(&mut self, event: IdempotentEvent)
        requires
            old(self).wf(),
            old(self).model().log_first + old(self).model().log.len() < u64::MAX,
            old(self).interned() + 3 <= u32::MAX,
            !needs_salt(event@) || old(self).model().salt is Some,
        ensures
            final(self).wf(),
            final(self).config_unchanged(old(self)),
            final(self).model() == ingest_transition(old(self).model(), event@),
            final(self).interned() <= old(self).interned() + 3,
    {
        let salt_bytes: [u8; 32] = match self.salt.get() {
            Some(s) => s,
            None => [0u8; 32],
        };
        proof {
            assert(salt_bytes@ =~= salt_of(self.model()));
        }
        let ghost m0 = self.model();
        proof {
            assert(m0.log == self.events.indexed());
            assert(m0.log.len() == self.events.stored().len());
            assert(m0.log_first == self.events.first_index());
        }
        let ghost eview = event@;
        let indexed = self.events.push(event, &salt_bytes);
        proof {
            assert(indexed@ == resolved_event(eview, salt_bytes@, (m0.log_first
                + m0.log.len()) as u64));
            assert(salt_bytes@ == salt_of(m0));
            assert(indexed@ == resolved_event(eview, salt_of(m0), (m0.log_first
                + m0.log.len()) as u64));
        }
        self.integrations_data.push_event(&indexed);
        proof {
            assert(self.model() =~= ingest_transition(m0, eview));
        }
    }

    /// Ingests one event at time `now`: the dedup window decides; an accepted
    /// event has its timestamp bucketed, is stored under the next gapless
    /// index and counted by the aggregation index — or, if it needs the salt
    /// before the salt exists, is deferred, never dropped. A duplicate leaves
    /// everything but the dedup window untouched.
    pub fn push_event(&mut self, event: IdempotentEvent, now: TimestampMillis)
        requires
            old(self).wf(),
            old(self).model().log_first + old(self).model().log.len() < u64::MAX,
            old(self).interned() + 3 <= u32::MAX,
        ensures
            final(self).wf(),
            final(self).config_unchanged(old(self)),
            final(self).model() == push_transition(old(self).model(), event@, now),
            final(self).interned() <= old(self).interned() + 3,
            final(self).model().log == old(self).model().log ==> final(self).interned() == old(
                self,
            ).interned(),
            final(self).model().log_first + final(self).model().log.len() <= old(
                self,
            ).model().log_first + old(self).model().log.len() + 1,
    {
        let ghost m0 = self.model();
        let key = event.idempotency_key;
        let accepted = self.event_deduper.try_push(key, now);
        if !accepted {
            proof {
                assert(self.model() =~= push_transition(m0, event@, now));
            }
            return ;
        }
        let mut event = event;
        let ghost pre_bucket = event@;
        match self.time_granularity {
            Some(g) => {
                assert(g > 0);
                proof {
                    assert((event.timestamp as int) % (g as int) <= event.timestamp as int)
                        by (nonlinear_arith)
                        requires
                            g > 0,
                    ;
                }
                event.timestamp = event.timestamp - event.timestamp % g;
            },
            None => {},
        }
        proof {
            assert(event@ == bucketed_event(pre_bucket, m0.granularity));
        }
        if self.can_resolve(&event) {
            self.store_event(event);
            proof {
                assert(self.model() =~= push_transition(m0, pre_bucket, now));
            }
        } else {
            self.deferred.push(event);
            proof {
                assert(event_views(self.deferred@) =~= event_views(old(self).deferred@).push(
                    bucketed_event(pre_bucket, m0.granularity),
                ));
                assert(self.model() =~= push_transition(m0, pre_bucket, now));
            }
        }
    }
}


/// What a range read serves, over the model: the stored events with indices
/// in `[start, start + length)`, clipped to the stored range; empty when
/// `start` lies outside it.
pub open spec fn read_slice(m: StateModel, start: u64, length: u64) -> Seq<IndexedEventView> {
    let lo = start - m.log_first;
    if m.log_first <= start && lo < m.log.len() {
        let hi = if lo + length < m.log.len() {
            lo + length
        } else {
            m.log.len() as int
        };
        m.log.subrange(lo, hi)
    } else {
        Seq::empty()
    }
}

/// The model after the deferred backlog `pending` is stored, in order.
pub open spec fn drain_from(m: StateModel, pending: Seq<IdempotentEventView>) -> StateModel
    decreases pending.len(),
{
    if pending.len() == 0 {
        m
    } else {
        drain_from(ingest_transition(m, pending[0]), pending.skip(1))
    }
}

impl State {
    /// Records the salt — it can be set only once — and then stores every
    /// deferred event, in the order they were accepted.
    pub fn set_salt(&mut self, salt: [u8; 32])
        requires
            old(self).wf(),
            old(self).model().salt is None,
            old(self).model().log_first + old(self).model().log.len() + old(
                self,
            ).model().deferred.len() <= u64::MAX,
            old(self).interned() + 3 * old(self).model().deferred.len() <= u32::MAX,
        ensures
            final(self).wf(),
            final(self).config_unchanged(old(self)),
            final(self).model() == drain_from(
                StateModel {
                    salt: Some(salt@),
                    deferred: Seq::<IdempotentEventView>::empty(),
                    ..old(self).model()
                },
                old(self).model().deferred,
            ),
            final(self).model().deferred == Seq::<IdempotentEventView>::empty(),
            final(self).interned() <= old(self).interned() + 3 * old(self).model().deferred.len(),
    {
        self.salt.set(salt);
        let ghost target = drain_from(
            StateModel {
                salt: Some(salt@),
                deferred: Seq::<IdempotentEventView>::empty(),
                ..old(self).model()
            },
            old(self).model().deferred,
        );
        proof {
            assert(StateModel {
                deferred: Seq::<IdempotentEventView>::empty(),
                ..self.model()
            } =~= StateModel {
                salt: Some(salt@),
                deferred: Seq::<IdempotentEventView>::empty(),
                ..old(self).model()
            });
            assert(event_views(self.deferred@) == old(self).model().deferred);
        }
        while self.deferred.len() > 0
            invariant
                self.wf(),
                self.config_unchanged(old(self)),
                self.model().salt == Some(salt@),
                drain_from(
                    StateModel { deferred: Seq::<IdempotentEventView>::empty(), ..self.model() },
                    event_views(self.deferred@),
                ) == target,
                self.model().log_first + self.model().log.len() + self.model().deferred.len()
                    <= u64::MAX,
                self.interned() + 3 * self.model().deferred.len() <= u32::MAX,
                self.interned() + 3 * self.model().deferred.len() <= old(self).interned() + 3
                    * old(self).model().deferred.len(),
            decreases self.deferred.len(),
        {
            let ghost m_strip = StateModel {
                deferred: Seq::<IdempotentEventView>::empty(),
                ..self.model()
            };
            let ghost pending = event_views(self.deferred@);
            let e = self.deferred.remove(0);
            let ghost m_mid = self.model();
            proof {
                assert(e@ == pending[0]);
                assert(event_views(self.deferred@) =~= pending.skip(1));
            }
            self.store_event(e);
            proof {
                assert(self.model() == ingest_transition(m_mid, pending[0]));
                assert(StateModel {
                    deferred: Seq::<IdempotentEventView>::empty(),
                    ..self.model()
                } =~= ingest_transition(m_strip, pending[0]));
                assert(drain_from(m_strip, pending) == drain_from(
                    ingest_transition(m_strip, pending[0]),
                    pending.skip(1),
                ));
            }
        }
        proof {
            assert(event_views(self.deferred@).len() == 0);
            assert(StateModel {
                deferred: Seq::<IdempotentEventView>::empty(),
                ..self.model()
            } =~= self.model());
        }
    }

    /// Ingests a whole batch, in order. Events are applied one by one with no
    /// cross-event transaction; each decides independently at the dedup
    /// window.
    pub fn push_events(&mut self, args: crate::api::PushEventsArgs, now: TimestampMillis)
        requires
            old(self).wf(),
            old(self).model().log_first + old(self).model().log.len()
                + args.events@.len() <= u64::MAX,
            old(self).interned() + 3 * args.events@.len() <= u32::MAX,
        ensures
            final(self).wf(),
            final(self).config_unchanged(old(self)),
            final(self).model() == batch_transition(
                old(self).model(),
                event_views(args.events@),
                now,
            ),
            final(self).interned() <= old(self).interned() + 3 * args.events@.len(),
    {
        let ghost target = batch_transition(old(self).model(), event_views(args.events@), now);
        let mut events = args.events;
        proof {
            assert(event_views(events@) == event_views(args.events@));
        }
        while events.len() > 0
            invariant
                self.wf(),
                self.config_unchanged(old(self)),
                batch_transition(self.model(), event_views(events@), now) == target,
                self.model().log_first + self.model().log.len() + events@.len() <= u64::MAX,
                self.interned() + 3 * events@.len() <= u32::MAX,
                self.interned() + 3 * events@.len() <= old(self).interned() + 3
                    * args.events@.len(),
            decreases events.len(),
        {
            let ghost views = event_views(events@);
            let ghost m_before = self.model();
            let e = events.remove(0);
            proof {
                assert(e@ == views[0]);
                assert(event_views(events@) =~= views.skip(1));
            }
            self.push_event(e, now);
            proof {
                assert(self.model() == push_transition(m_before, views[0], now));
                assert(batch_transition(m_before, views, now) == batch_transition(
                    push_transition(m_before, views[0], now),
                    views.skip(1),
                    now,
                ));
            }
        }
        proof {
            assert(event_views(events@).len() == 0);
            assert(batch_transition(self.model(), event_views(events@), now) == self.model());
        }
    }

    /// Serves a range read together with the log's bounds.
    pub fn events_inner(&self, args: crate::api::EventsArgs) -> (r: crate::api::EventsResponse)
        requires
            self.wf(),
        ensures
            crate::log::views_of(r.events@) == read_slice(self.model(), args.start, args.length),
            r.latest_event_index == if self.model().log_first + self.model().log.len() > 0 {
                Some((self.model().log_first + self.model().log.len() - 1) as u64)
            } else {
                None::<u64>
            },
            r.earliest_event_index_stored == if self.model().log.len() > 0 {
                Some(self.model().log_first)
            } else {
                None::<u64>
            },
    {
        let stats = self.events.stats();
        let events = self.events.get(args.start, args.length);
        proof {
            assert(self.model().log.len() == self.events.stored().len());
            assert(self.events.read_range(args.start, args.length) =~= read_slice(
                self.model(),
                args.start,
                args.length,
            ));
        }
        crate::api::EventsResponse {
            events,
            latest_event_index: stats.latest_event_index,
            earliest_event_index_stored: stats.earliest_event_index_stored,
        }
    }

    /// Legacy head truncation, and the log's bounds afterwards.
    pub fn remove_events(&mut self, args: crate::api::RemoveEventsArgs) -> (r:
        crate::api::RemoveEventsResponse)
        requires
            old(self).wf(),
        ensures
            final(self).wf(),
            final(self).config_unchanged(old(self)),
            ({
                let m = old(self).model();
                let next = m.log_first + m.log.len();
                let cut = if args.up_to_inclusive + 1 < m.log_first {
                    m.log_first as int
                } else if args.up_to_inclusive + 1 > next {
                    next
                } else {
                    args.up_to_inclusive + 1
                };
                &&& final(self).model() == (StateModel {
                    log: m.log.skip(cut - m.log_first),
                    log_first: cut as u64,
                    ..m
                })
                &&& r.latest_event_index == if next > 0 {
                    Some((next - 1) as u64)
                } else {
                    None::<u64>
                }
                &&& r.earliest_event_index_stored == if final(self).model().log.len() > 0 {
                    Some(cut as u64)
                } else {
                    None::<u64>
                }
            }),
            final(self).interned() == old(self).interned(),
    {
        let ghost m0 = self.model();
        proof {
            assert(m0.log.len() == self.events.stored().len());
        }
        self.events.remove(args.up_to_inclusive);
        let stats = self.events.stats();
        proof {
            assert(self.model().log.len() == self.events.stored().len());
            assert(self.model() =~= (StateModel {
                log: m0.log.skip(
                    (if args.up_to_inclusive + 1 < m0.log_first {
                        m0.log_first as int
                    } else if args.up_to_inclusive + 1 > m0.log_first + m0.log.len() {
                        m0.log_first + m0.log.len()
                    } else {
                        args.up_to_inclusive + 1
                    }) - m0.log_first,
                ),
                log_first: (if args.up_to_inclusive + 1 < m0.log_first {
                    m0.log_first as int
                } else if args.up_to_inclusive + 1 > m0.log_first + m0.log.len() {
                    m0.log_first + m0.log.len()
                } else {
                    args.up_to_inclusive + 1
                }) as u64,
                ..m0
            }));
        }
        crate::api::RemoveEventsResponse {
            latest_event_index: stats.latest_event_index,
            earliest_event_index_stored: stats.earliest_event_index_stored,
        }
    }

    /// The configured allow-lists.
    pub fn whitelisted_principals(&self) -> (r: crate::api::WhitelistedPrincipals)
        ensures
            id_views(r.push@) == self.push_list(),
            id_views(r.read@) == self.read_list(),
            id_views(r.remove@) == self.remove_list(),
    {
        crate::api::WhitelistedPrincipals {
            push: clone_id_list(&self.push_events_whitelist),
            read: clone_id_list(&self.read_events_whitelist),
            remove: clone_id_list(&self.remove_events_whitelist),
        }
    }

    /// The event log, for direct reads: what it serves is exactly the
    /// model's log.
    pub fn events(&self) -> (r: &Events)
        ensures
            *r == self.log(),
            r.indexed() == self.model().log,
            r.first_index() == self.model().log_first,
            self.wf() ==> r.wf(),
    {
        &self.events
    }

    /// The next un-migrated position in the deprecated store.
    pub fn migration_cursor(&self) -> (r: u64)
        ensures
            r == self.model().cursor,
    {
        self.migration_cursor
    }

    /// How many events the deprecated store holds.
    pub fn legacy_len(&self) -> (r: usize)
        ensures
            r == self.model().legacy.len(),
    {
        self.legacy_events.len()
    }

    /// The derived aggregation data.
    pub fn integrations_data(&self) -> (r: &IntegrationsData)
        ensures
            *r == self.integrations(),
    {
        &self.integrations_data
    }

    /// The derived aggregation data, for writing.
    pub fn integrations_data_mut(&mut self) -> (r: &mut IntegrationsData)
        ensures
            *r == old(self).integrations(),
            final(self).integrations() == *final(r),
            final(self).log() == old(self).log(),
            final(self).config_unchanged(old(self)),
            final(self).model() == (StateModel {
                agg_next: final(r).dapp_radar.next_index(),
                daily: final(r).dapp_radar.daily_buckets(),
                hourly: final(r).dapp_radar.hourly_buckets(),
                ..old(self).model()
            }),
    {
        &mut self.integrations_data
    }

    /// The aggregation component (for contracts that speak of its queries).
    pub closed spec fn integrations(&self) -> IntegrationsData {
        self.integrations_data
    }
}

/// An exact copy of one caller id.
pub(crate) fn clone_bytes(v: &Vec<u8>) -> (r: Vec<u8>)
    ensures
        r@ == v@,
{
    let n = v.len();
    let mut r: Vec<u8> = Vec::new();
    let mut i: usize = 0;
    while i < n
        invariant
            n == v@.len(),
            0 <= i <= n,
            r@ == v@.take(i as int),
        decreases n - i,
    {
        r.push(v[i]);
        proof {
            assert(r@ =~= v@.take(i + 1));
        }
        i += 1;
    }
    proof {
        assert(v@.take(n as int) =~= v@);
    }
    r
}

/// An exact copy of an allow-list.
fn clone_id_list(list: &Vec<Vec<u8>>) -> (r: Vec<Vec<u8>>)
    ensures
        id_views(r@) == id_views(list@),
{
    let n = list.len();
    let mut r: Vec<Vec<u8>> = Vec::new();
    let mut i: usize = 0;
    while i < n
        invariant
            n == list@.len(),
            0 <= i <= n,
            r@.len() == i,
            forall|j: int| 0 <= j < i ==> r@[j]@ == #[trigger] list@[j]@,
        decreases n - i,
    {
        r.push(clone_bytes(&list[i]));
        i += 1;
    }
    proof {
        assert forall|j: int| 0 <= j < n implies id_views(r@)[j] == id_views(list@)[j] by {
            assert(r@[j]@ == list@[j]@);
        }
        assert(id_views(r@) =~= id_views(list@));
    }
    r
}


/// How many legacy events one migration tick with this batch size copies:
/// the batch, clipped to what is left past the cursor.
pub open spec fn migrate_count(m: StateModel, batch: u64) -> int {
    let remaining = if m.cursor <= m.legacy.len() {
        m.legacy.len() - m.cursor
    } else {
        0
    };
    if batch <= remaining {
        batch as int
    } else {
        remaining as int
    }
}

/// The model after up to `n` legacy events are copied into the current log
/// and aggregation index, advancing the cursor.
pub open spec fn migrate_steps(m: StateModel, n: int) -> StateModel
    decreases n,
{
    if n <= 0 || m.cursor >= m.legacy.len() {
        m
    } else {
        let ev = m.legacy[m.cursor as int];
        let idx = (m.log_first + m.log.len()) as u64;
        let ie = crate::log::migrated_view(ev, idx);
        let m2 = feed_agg(
            StateModel { log: m.log.push(ie), cursor: (m.cursor + 1) as u64, ..m },
            ie,
        );
        migrate_steps(m2, n - 1)
    }
}

/// The model after the aggregation index catches up on up to `n` log events
/// from its cursor.
pub open spec fn populate_steps(m: StateModel, n: int) -> StateModel
    decreases n,
{
    if n <= 0 {
        m
    } else {
        let pos = m.agg_next - m.log_first;
        if m.agg_next < m.log_first || pos >= m.log.len() {
            m
        } else {
            populate_steps(feed_agg(m, m.log[pos]), n - 1)
        }
    }
}

impl State {
    /// Installs the deprecated store's dataset for migration. Happens once,
    /// before any migration tick.
    pub fn set_legacy_events(&mut self, events: Vec<crate::types::IndexedEvent>)
        requires
            old(self).wf(),
            old(self).model().cursor == 0,
            old(self).model().legacy.len() == 0,
        ensures
            final(self).wf(),
            final(self).config_unchanged(old(self)),
            final(self).model() == (StateModel {
                legacy: crate::log::views_of(events@),
                ..old(self).model()
            }),
            final(self).interned() == old(self).interned(),
    {
        self.legacy_events = events;
        proof {
            assert(self.model() =~= (StateModel {
                legacy: crate::log::views_of(self.legacy_events@),
                ..old(self).model()
            }));
        }
    }

    /// One migration tick: copies up to `batch` events from the deprecated
    /// store into the current log and aggregation index, advances the
    /// persisted cursor, and says whether work remains. Once the cursor has
    /// caught up it is a permanent no-op, and it is safe to rerun from any
    /// interruption point.
    pub fn migrate_events(&mut self, batch: u64) -> (more: bool)
        requires
            old(self).wf(),
            old(self).model().log_first + old(self).model().log.len() + migrate_count(
                old(self).model(),
                batch,
            ) <= u64::MAX,
            old(self).interned() + 3 * migrate_count(old(self).model(), batch) <= u32::MAX,
        ensures
            final(self).wf(),
            final(self).config_unchanged(old(self)),
            final(self).model() == migrate_steps(old(self).model(), batch as int),
            final(self).interned() <= old(self).interned() + 3 * (final(self).model().cursor
                - old(self).model().cursor),
            more == (final(self).model().cursor < final(self).model().legacy.len()),
    {
        let ghost m0 = self.model();
        let mut done: u64 = 0;
        while done < batch && self.migration_cursor < self.legacy_events.len() as u64
            invariant
                self.wf(),
                self.config_unchanged(old(self)),
                0 <= done <= batch,
                migrate_steps(m0, batch as int) == migrate_steps(
                    self.model(),
                    batch - done,
                ),
                self.model().legacy == m0.legacy,
                self.model().cursor == m0.cursor + done,
                done <= migrate_count(m0, batch),
                self.model().log_first + self.model().log.len() + (migrate_count(m0, batch)
                    - done) <= u64::MAX,
                self.interned() + 3 * (migrate_count(m0, batch) - done) <= u32::MAX,
                self.interned() <= old(self).interned() + 3 * (self.model().cursor
                    - old(self).model().cursor),
            decreases batch - done,
        {
            let ghost m = self.model();
            let cursor = self.migration_cursor as usize;
            proof {
                assert(m.cursor < m.legacy.len());
                assert(crate::log::views_of(self.legacy_events@)[cursor as int]
                    == self.legacy_events@[cursor as int]@);
            }
            let ev = clone_indexed(&self.legacy_events[cursor]);
            let ghost idx = (m.log_first + m.log.len()) as u64;
            let stored = self.events.append_indexed(ev);
            proof {
                assert(stored@ == crate::log::migrated_view(m.legacy[m.cursor as int], idx));
            }
            self.integrations_data.push_event(&stored);
            self.migration_cursor = self.migration_cursor + 1;
            done = done + 1;
            proof {
                let ie = crate::log::migrated_view(m.legacy[m.cursor as int], idx);
                let m2 = feed_agg(
                    StateModel { log: m.log.push(ie), cursor: (m.cursor + 1) as u64, ..m },
                    ie,
                );
                assert(self.model() =~= m2);
                assert(migrate_steps(m, batch - (done - 1)) == migrate_steps(
                    m2,
                    batch - done,
                ));
            }
        }
        proof {
            if done == batch {
            } else {
                assert(self.model().cursor >= self.model().legacy.len());
            }
            assert(migrate_steps(self.model(), batch - done) == self.model());
        }
        self.migration_cursor < self.legacy_events.len() as u64
    }

    /// One catch-up tick of the aggregation index: reads up to `batch` events
    /// from the log at the index the aggregation has consumed up to, feeds
    /// them through, and says whether the cursor still lies below the log's
    /// end — work remains exactly while one more event could be consumed.
    pub fn populate_integrations_data(&mut self, batch: u64) -> (more: bool)
        requires
            old(self).wf(),
        ensures
            final(self).wf(),
            final(self).config_unchanged(old(self)),
            final(self).model() == populate_steps(old(self).model(), batch as int),
            final(self).interned() == old(self).interned(),
            more == (final(self).model().agg_next < final(self).model().log_first
                + final(self).model().log.len()),
    {
        let ghost m0 = self.model();
        let next = self.integrations_data.dapp_radar.next_event_index();
        let events = self.events.get(next, batch);
        let ghost range = self.events.read_range(next, batch);
        let ghost lo = m0.agg_next - m0.log_first;
        proof {
            assert(crate::log::views_of(events@) == range);
            assert(m0.log.len() == self.events.stored().len());
            if range.len() > 0 {
                assert(m0.log_first <= m0.agg_next && lo < m0.log.len());
                assert forall|j: int| 0 <= j < range.len() implies (#[trigger] range[j])
                    == m0.log[lo + j] && range[j].index == m0.agg_next + j by {
                    assert(range[j] == self.events.indexed()[lo + j]);
                    assert(self.events.indexed()[lo + j] == crate::log::hydrated(
                        self.events.stored()[lo + j],
                        self.events.strings(),
                    ));
                    assert(self.events.stored()[lo + j].index == m0.log_first + (lo + j));
                }
            }
            assert(range.len() <= batch);
        }
        let n = events.len();
        let mut i: usize = 0;
        while i < n
            invariant
                self.wf(),
                self.config_unchanged(old(self)),
                0 <= i <= n,
                n == events@.len(),
                n == range.len(),
                n <= batch,
                lo == m0.agg_next - m0.log_first,
                crate::log::views_of(events@) == range,
                forall|j: int| 0 <= j < n ==> (#[trigger] range[j]) == m0.log[lo + j]
                    && range[j].index == m0.agg_next + j,
                self.model().log == m0.log,
                self.model().log_first == m0.log_first,
                self.model().dedup == m0.dedup,
                self.model().dedup_window == m0.dedup_window,
                self.model().dedup_last_pruned == m0.dedup_last_pruned,
                self.model().deferred == m0.deferred,
                self.model().salt == m0.salt,
                self.model().granularity == m0.granularity,
                self.model().legacy == m0.legacy,
                self.model().cursor == m0.cursor,
                self.model().agg_next == m0.agg_next + i,
                self.interned() == old(self).interned(),
                n > 0 ==> m0.log_first <= m0.agg_next && lo + n <= m0.log.len(),
                populate_steps(m0, batch as int) == populate_steps(self.model(), batch - i),
            decreases n - i,
        {
            let ghost m = self.model();
            let ev = &events[i];
            proof {
                assert(m.agg_next == m0.agg_next + i);
                assert(m.log_first == m0.log_first);
                assert(ev@ == crate::log::views_of(events@)[i as int]);
                assert(ev@ == range[i as int]);
                assert(range[i as int] == m0.log[lo + i] && range[i as int].index == m0.agg_next
                    + i);
                assert(ev@.index == m.agg_next);
                assert(m0.log_first <= m0.agg_next && lo + n <= m0.log.len());
                assert(m0.agg_next == m0.log_first + lo);
                assert(lo + i < m0.log.len());
                assert(ev@.index == m0.log_first + (lo + i));
                assert(m0.log_first + m0.log.len() <= u64::MAX);
                assert(ev@.index < u64::MAX);
            }
            self.integrations_data.push_event(ev);
            proof {
                assert(self.model() =~= feed_agg(m, ev@));
                assert(m.agg_next - m.log_first == lo + i);
                assert(m.log == m0.log);
                assert(m.log[m.agg_next - m.log_first] == ev@);
                assert(batch - i > 0);
                assert(populate_steps(m, batch - i) == populate_steps(
                    feed_agg(m, ev@),
                    batch - i - 1,
                ));
            }
            i += 1;
        }
        let stats = self.events.stats();
        let more = match stats.latest_event_index {
            Some(latest) => self.integrations_data.dapp_radar.next_event_index() <= latest,
            None => false,
        };
        proof {
            if n < batch {
                assert(populate_steps(self.model(), batch - n) == self.model());
            } else {
                assert(populate_steps(self.model(), 0) == self.model());
            }
        }
        more
    }
}

/// An exact copy of one served event.
fn clone_indexed(ev: &crate::types::IndexedEvent) -> (r: crate::types::IndexedEvent)
    ensures
        r@ == ev@,
{
    crate::types::IndexedEvent {
        index: ev.index,
        name: ev.name.clone(),
        timestamp: ev.timestamp,
        user: match &ev.user {
            Some(u) => Some(u.clone()),
            None => None,
        },
        source: match &ev.source {
            Some(s) => Some(s.clone()),
            None => None,
        },
        payload: clone_bytes(&ev.payload),
    }
}

} // verus!
