//! An append-only event ingestion and storage engine with its companion
//! producer-side batching client: producers push batches of events, the
//! store assigns each accepted event a gapless index, deduplicates by
//! idempotency token inside a bounded time window, optionally hashes
//! personally-identifying fields and buckets timestamps, and serves
//! paginated range reads alongside an incrementally maintained aggregation
//! index.

use vstd::prelude::*;

pub mod aggregation;
pub mod anonymizer;
pub mod api;
pub mod calendar;
pub mod client;
pub mod consumer;
pub mod decimal;
pub mod deduper;
pub mod guards;
pub mod http;
pub mod interner;
pub mod laws;
pub mod log;
pub mod rng;
pub mod state;
pub mod types;

verus! {

/// A duration in milliseconds.
pub type Milliseconds = u64;

/// A timestamp in milliseconds since the Unix epoch.
pub type TimestampMillis = u64;

/// Rounds `timestamp` down to the nearest multiple of `granularity`, if a
/// granularity is configured; otherwise leaves it unchanged.
pub fn bucket_timestamp(timestamp: TimestampMillis, granularity: Option<Milliseconds>) -> (r: TimestampMillis)
    requires
        granularity matches Some(g) ==> g > 0,
    ensures
        r == bucketed(timestamp, granularity),
{
    match granularity {
        Some(g) => {
            assert((timestamp as int) % (g as int) <= timestamp as int) by (nonlinear_arith)
                requires g > 0;
            timestamp - timestamp % g
        },
        None => timestamp,
    }
}

/// The timestamp a configured granularity maps `timestamp` to: the largest
/// multiple of the granularity that does not exceed it.
pub open spec fn bucketed(timestamp: TimestampMillis, granularity: Option<Milliseconds>) -> TimestampMillis {
    match granularity {
        Some(g) => (timestamp - (timestamp as int) % (g as int)) as TimestampMillis,
        None => timestamp,
    }
}

} // verus!
