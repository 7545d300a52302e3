use vstd::prelude::*;

verus! {

use crate::types::{IdempotentEvent, IndexedEvent};

/// A range read: up to `length` events from index `start`.
pub struct EventsArgs {
    pub start: u64,
    pub length: u64,
}

/// What a range read returns: the events, and the log's current bounds.
pub struct EventsResponse {
    pub events: Vec<IndexedEvent>,
    pub latest_event_index: Option<u64>,
    pub earliest_event_index_stored: Option<u64>,
}

/// A batch of events to ingest.
pub struct PushEventsArgs {
    pub events: Vec<IdempotentEvent>,
}

/// Legacy head truncation: discard stored events up to this index.
pub struct RemoveEventsArgs {
    pub up_to_inclusive: u64,
}

/// The log's bounds after a truncation.
pub struct RemoveEventsResponse {
    pub latest_event_index: Option<u64>,
    pub earliest_event_index_stored: Option<u64>,
}

/// The configured allow-lists, one caller id per entry.
pub struct WhitelistedPrincipals {
    pub push: Vec<Vec<u8>>,
    pub read: Vec<Vec<u8>>,
    pub remove: Vec<Vec<u8>>,
}

} // verus!
