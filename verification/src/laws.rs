use vstd::prelude::*;

verus! {

use crate::aggregation::{buckets_wf, capped, key_lt, BucketKey};
use crate::anonymizer::resolved;
use crate::client::{
    complete_transition, flush_transition, process_transition, push_transition as client_push,
    ActionView, ClientModel, FLUSH_OUTCOME_FAILED_SHOULD_RETRY,
};
use crate::deduper::has_token;
use crate::log::migrated_view;
use crate::state::{
    batch_transition, bucketed_event, dedup_due, migrate_steps, needs_salt, push_transition,
    salt_of, StateModel,
};
use crate::types::{IdempotentEventView, TaggedString};

/// Indices run gaplessly from the first stored index.
pub open spec fn log_gapless(m: StateModel) -> bool {
    forall|i: int| 0 <= i < m.log.len() ==> (#[trigger] m.log[i]).index == m.log_first + i
}

/// The dedup window's records after the opportunistic prune a push at `now`
/// may run.
pub open spec fn kept_tokens(m: StateModel, now: u64) -> Seq<(u128, u64)> {
    if dedup_due(m, now) {
        crate::deduper::surviving(m.dedup, now, m.dedup_window)
    } else {
        m.dedup
    }
}

/// Whether a push at `now` stores its event in the log at once: its token is
/// new inside the window, and it does not have to wait for the salt.
pub open spec fn stores_now(m: StateModel, e: IdempotentEventView, now: u64) -> bool {
    &&& !has_token(kept_tokens(m, now), e.idempotency_key)
    &&& !(m.salt is None && needs_salt(bucketed_event(e, m.granularity)))
}

/// Accepted events get exactly the next gapless indices, in push order:
/// a push either leaves the log unchanged (a duplicate, or an event deferred
/// for the salt) or appends exactly one event whose index is the next one,
/// and gaplessness is preserved. Starting from an empty log, N accepted
/// events therefore carry indices 0 to N-1 in push order.
pub proof fn lemma_push_indices(m: StateModel, e: IdempotentEventView, now: u64)
    requires
        log_gapless(m),
        m.log_first + m.log.len() < u64::MAX,
    ensures
        log_gapless(push_transition(m, e, now)),
        push_transition(m, e, now).log_first == m.log_first,
        stores_now(m, e, now) ==> {
            &&& push_transition(m, e, now).log.len() == m.log.len() + 1
            &&& push_transition(m, e, now).log.last().index == m.log_first + m.log.len()
            &&& forall|i: int|
                0 <= i < m.log.len() ==> push_transition(m, e, now).log[i] == m.log[i]
        },
        !stores_now(m, e, now) ==> push_transition(m, e, now).log == m.log,
{
    let m1 = push_transition(m, e, now);
    if stores_now(m, e, now) {
        let eb = bucketed_event(e, m.granularity);
        let idx = (m.log_first + m.log.len()) as u64;
        assert(m1.log == m.log.push(
            crate::log::resolved_event(eb, salt_of(m), idx),
        ));
        assert forall|i: int| 0 <= i < m1.log.len() implies (#[trigger] m1.log[i]).index
            == m1.log_first + i by {
            if i < m.log.len() {
                assert(m1.log[i] == m.log[i]);
            }
        }
    }
}

/// Pushing a whole batch preserves gaplessness and only ever appends; batch
/// boundaries play no role in which index an accepted event gets.
pub proof fn lemma_batch_indices(m: StateModel, events: Seq<IdempotentEventView>, now: u64)
    requires
        log_gapless(m),
        m.log_first + m.log.len() + events.len() <= u64::MAX,
    ensures
        log_gapless(batch_transition(m, events, now)),
        batch_transition(m, events, now).log_first == m.log_first,
        batch_transition(m, events, now).log.len() >= m.log.len(),
        forall|i: int|
            0 <= i < m.log.len() ==> batch_transition(m, events, now).log[i] == m.log[i],
    decreases events.len(),
{
    if events.len() > 0 {
        let m1 = push_transition(m, events[0], now);
        lemma_push_indices(m, events[0], now);
        lemma_batch_indices(m1, events.skip(1), now);
    }
}

/// Inside the dedup window a token is accepted at most once: a push whose
/// token is already recorded (and has not been pruned) stores nothing — not
/// in the log and not in the deferred backlog. After the window has rolled
/// past, the record may have been pruned, and the same token may legitimately
/// store a second event; acceptance is decided by `kept_tokens` alone.
pub proof fn lemma_duplicate_dropped(m: StateModel, e: IdempotentEventView, now: u64)
    ensures
        has_token(kept_tokens(m, now), e.idempotency_key) ==> {
            &&& push_transition(m, e, now).log == m.log
            &&& push_transition(m, e, now).deferred == m.deferred
            &&& push_transition(m, e, now).dedup == kept_tokens(m, now)
        },
        !has_token(kept_tokens(m, now), e.idempotency_key) ==> push_transition(
            m,
            e,
            now,
        ).dedup == kept_tokens(m, now).push((e.idempotency_key, now)),
{
}

/// What a stored event reads back as: its name, bucketed timestamp and
/// payload verbatim, and its user and source resolved — a `Public` value
/// byte-identical, an `Anonymize` value as its salted hash. Reading the event
/// back by its assigned index reproduces exactly these fields.
pub proof fn lemma_round_trip(m: StateModel, e: IdempotentEventView, now: u64)
    requires
        m.log_first + m.log.len() < u64::MAX,
        stores_now(m, e, now),
    ensures
        ({
            let stored = push_transition(m, e, now).log.last();
            &&& stored.index == m.log_first + m.log.len()
            &&& stored.name == e.name
            &&& stored.timestamp == crate::bucketed(e.timestamp, m.granularity)
            &&& stored.payload == e.payload
            &&& stored.user == match e.user {
                Some(t) => Some(resolved(t, salt_of(m))),
                None => None::<Seq<char>>,
            }
            &&& stored.source == match e.source {
                Some(t) => Some(resolved(t, salt_of(m))),
                None => None::<Seq<char>>,
            }
        }),
{
}

/// A `Public` field round-trips byte-identical: resolution leaves it exactly
/// as it came.
pub proof fn lemma_public_roundtrip(s: Seq<char>, salt: Seq<u8>)
    ensures
        resolved(TaggedString::Public(s), salt) == s,
{
}

/// After migration has caught up, the current log holds exactly the legacy
/// dataset, in its original order, under gapless indices from zero — and
/// every further tick is a no-op.
pub proof fn lemma_migration_completes(m: StateModel, n: int)
    requires
        n >= 0,
        m.cursor == 0,
        m.log.len() == 0,
        m.log_first == 0,
        m.legacy.len() <= n,
        m.legacy.len() <= u64::MAX,
    ensures
        ({
            let done = migrate_steps(m, n);
            &&& done.cursor == m.legacy.len()
            &&& done.log.len() == m.legacy.len()
            &&& forall|i: int|
                0 <= i < m.legacy.len() ==> done.log[i] == migrated_view(
                    #[trigger] m.legacy[i],
                    i as u64,
                )
        }),
{
    lemma_migrate_invariant(m, n);
}

/// Once the cursor has reached the end of the legacy dataset, a migration
/// tick changes nothing.
pub proof fn lemma_migration_idempotent(m: StateModel, n: int)
    requires
        m.cursor >= m.legacy.len(),
    ensures
        migrate_steps(m, n) == m,
    decreases n,
{
    if n > 0 {
        lemma_migration_idempotent(m, n - 1);
    }
}

/// Each migration step copies the cursor's legacy event to the end of the
/// log under the next index.
proof fn lemma_migrate_invariant(m: StateModel, n: int)
    requires
        n >= 0,
        m.log_first == 0,
        m.cursor <= m.legacy.len(),
        m.log.len() == m.cursor,
        m.legacy.len() <= u64::MAX,
        forall|i: int|
            0 <= i < m.cursor ==> m.log[i] == migrated_view(#[trigger] m.legacy[i], i as u64),
    ensures
        ({
            let done = migrate_steps(m, n);
            let target = if m.cursor + n <= m.legacy.len() {
                m.cursor + n
            } else {
                m.legacy.len() as int
            };
            &&& done.cursor == target
            &&& done.log.len() == target
            &&& done.log_first == 0
            &&& done.legacy == m.legacy
            &&& forall|i: int|
                0 <= i < target ==> done.log[i] == migrated_view(#[trigger] m.legacy[i], i as u64)
        }),
    decreases n,
{
    if n <= 0 || m.cursor >= m.legacy.len() {
    } else {
        let ev = m.legacy[m.cursor as int];
        let idx = (m.log_first + m.log.len()) as u64;
        let ie = migrated_view(ev, idx);
        let m2 = crate::state::feed_agg(
            StateModel { log: m.log.push(ie), cursor: (m.cursor + 1) as u64, ..m },
            ie,
        );
        assert(m2.log == m.log.push(ie));
        assert forall|i: int| 0 <= i < m2.cursor implies m2.log[i] == migrated_view(
            #[trigger] m2.legacy[i],
            i as u64,
        ) by {
            if i < m.cursor {
                assert(m2.log[i] == m.log[i]);
            } else {
                assert(m2.log[i] == ie);
            }
        }
        lemma_migrate_invariant(m2, n - 1);
    }
}

/// At most one flush is ever in flight: no queue step starts a flush while
/// one is already in flight, and starting one marks it in flight.
pub proof fn lemma_single_flush_in_flight(
    m: ClientModel,
    e: IdempotentEventView,
    can: bool,
    now: u64,
)
    ensures
        m.flush_in_progress ==> !(process_transition(m, can, now).1 is Flush),
        m.flush_in_progress ==> !(client_push(m, e, can, now).1 is Flush),
        m.flush_in_progress ==> !(flush_transition(m).1 is Flush),
        (flush_transition(m).1 is Flush) ==> (!m.flush_in_progress
            && flush_transition(m).0.flush_in_progress),
        (process_transition(m, can, now).1 is Flush) ==> (!m.flush_in_progress
            && process_transition(m, can, now).0.flush_in_progress),
{
}

/// A finished flush never starts the next one directly: it only re-evaluates
/// the schedule.
pub proof fn lemma_complete_never_flushes(
    m: ClientModel,
    outcome: u8,
    events: Seq<IdempotentEventView>,
    now: u64,
)
    ensures
        !(complete_transition(m, outcome, events, now).1 is Flush),
{
}

/// Pushing the event that fills the buffer to exactly the batch size
/// triggers exactly one flush carrying exactly the buffered events, in push
/// order, and empties the buffer.
pub proof fn lemma_full_batch_flushes(m: ClientModel, e: IdempotentEventView, now: u64)
    requires
        !m.flush_in_progress,
        m.pending.len() + 1 == m.max_batch_size,
    ensures
        client_push(m, e, true, now).1 == ActionView::Flush(m.pending.push(e)),
        client_push(m, e, true, now).0.pending == Seq::<IdempotentEventView>::empty(),
        client_push(m, e, true, now).0.flush_in_progress,
{
    let grown = m.pending.push(e);
    assert(grown.take(grown.len() as int) =~= grown);
    assert(grown.skip(grown.len() as int) =~= Seq::<IdempotentEventView>::empty());
}

/// A flush that reports retryable failure puts every event of its batch back
/// at the front of the buffer, before anything pushed meanwhile, so the
/// batch is offered again to a later flush.
pub proof fn lemma_retry_requeues(
    m: ClientModel,
    events: Seq<IdempotentEventView>,
    now: u64,
)
    requires
        events.len() > 0,
    ensures
        complete_transition(m, FLUSH_OUTCOME_FAILED_SHOULD_RETRY, events, now).0.pending == events
            + m.pending,
        !complete_transition(m, FLUSH_OUTCOME_FAILED_SHOULD_RETRY, events, now).0.flush_in_progress,
{
}

/// Hourly eviction is strict chronological first-in-first-out: capping keeps
/// exactly the most recent buckets — the kept buckets are the tail of the
/// series, and every evicted bucket's key is strictly before every kept
/// bucket's key.
pub proof fn lemma_hourly_eviction(bs: Seq<(BucketKey, Seq<(Seq<char>, u32)>)>, cap: int)
    requires
        buckets_wf(bs),
        cap >= 0,
    ensures
        capped(bs, cap).len() == if bs.len() <= cap {
            bs.len() as int
        } else {
            cap
        },
        forall|i: int|
            0 <= i < capped(bs, cap).len() ==> capped(bs, cap)[i] == bs[bs.len() - capped(
                bs,
                cap,
            ).len() + i],
        forall|j: int, i: int|
            0 <= j < bs.len() - capped(bs, cap).len() && 0 <= i < capped(bs, cap).len()
                ==> key_lt(#[trigger] bs[j].0, (#[trigger] capped(bs, cap)[i]).0),
{
    let kept = capped(bs, cap);
    assert forall|j: int, i: int|
        0 <= j < bs.len() - kept.len() && 0 <= i < kept.len() implies key_lt(
        #[trigger] bs[j].0,
        (#[trigger] kept[i]).0,
    ) by {
        assert(kept[i] == bs[bs.len() - kept.len() + i]);
        assert(key_lt(bs[j].0, bs[bs.len() - kept.len() + i].0));
    }
}

} // verus!
