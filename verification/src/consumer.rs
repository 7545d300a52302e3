use vstd::prelude::*;

verus! {

use crate::api::{EventsArgs, EventsResponse};

/// The consumer-side cursor over a store's log: remembers the highest index
/// already synced and asks for the next contiguous batch. The transport that
/// carries the request belongs to the surrounding runtime; this type only
/// decides what to ask for and records what came back.
pub struct EventStoreClient {
    event_store_canister_id: Vec<u8>,
    synced_up_to: Option<u64>,
    batch_size: u64,
}

impl EventStoreClient {
    /// The highest log index already consumed, if any.
    pub closed spec fn synced(&self) -> Option<u64> {
        self.synced_up_to
    }

    /// How many events one batch asks for.
    pub closed spec fn batch(&self) -> u64 {
        self.batch_size
    }

    /// The store instance read from.
    pub closed spec fn canister_id(&self) -> Seq<u8> {
        self.event_store_canister_id@
    }

    /// The highest index already consumed.
    pub fn synced_up_to(&self) -> (r: Option<u64>)
        ensures
            r == self.synced(),
    {
        self.synced_up_to
    }

    /// The range read the next batch must perform: from just past the synced
    /// index (or from zero), for one batch.
    pub fn next_batch_args(&self) -> (r: EventsArgs)
        requires
            self.synced() matches Some(i) ==> i < u64::MAX,
        ensures
            r.start == match self.synced() {
                Some(i) => i + 1,
                None => 0,
            },
            r.length == self.batch(),
    {
        EventsArgs {
            start: match self.synced_up_to {
                Some(i) => i + 1,
                None => 0,
            },
            length: self.batch_size,
        }
    }

    /// Records a batch that came back: the cursor advances to the last event
    /// served, and stays put on an empty batch.
    pub fn record_response(&mut self, response: &EventsResponse)
        ensures
            final(self).batch() == old(self).batch(),
            final(self).canister_id() == old(self).canister_id(),
            final(self).synced() == if response.events@.len() > 0 {
                Some(response.events@.last().index)
            } else {
                old(self).synced()
            },
    {
        let n = response.events.len();
        if n > 0 {
            self.synced_up_to = Some(response.events[n - 1].index);
        }
    }
}

/// Step-by-step construction of a consumer cursor.
pub struct EventStoreClientBuilder {
    event_store_canister_id: Vec<u8>,
    synced_up_to: Option<u64>,
    batch_size: Option<u64>,
}

impl EventStoreClientBuilder {
    pub closed spec fn synced_spec(&self) -> Option<u64> {
        self.synced_up_to
    }

    pub closed spec fn batch_spec(&self) -> Option<u64> {
        self.batch_size
    }

    pub closed spec fn canister_id_spec(&self) -> Seq<u8> {
        self.event_store_canister_id@
    }

    pub fn new(event_store_canister_id: Vec<u8>) -> (r: EventStoreClientBuilder)
        ensures
            r.canister_id_spec() == event_store_canister_id@,
            r.synced_spec() is None,
            r.batch_spec() is None,
    {
        EventStoreClientBuilder { event_store_canister_id, synced_up_to: None, batch_size: None }
    }

    /// Starts the cursor past an index already consumed elsewhere.
    pub fn set_synced_up_to(self, synced_up_to: u64) -> (r: EventStoreClientBuilder)
        ensures
            r.synced_spec() == Some(synced_up_to),
            r.batch_spec() == self.batch_spec(),
            r.canister_id_spec() == self.canister_id_spec(),
    {
        EventStoreClientBuilder { synced_up_to: Some(synced_up_to), ..self }
    }

    pub fn with_batch_size(self, batch_size: u64) -> (r: EventStoreClientBuilder)
        ensures
            r.batch_spec() == Some(batch_size),
            r.synced_spec() == self.synced_spec(),
            r.canister_id_spec() == self.canister_id_spec(),
    {
        EventStoreClientBuilder { batch_size: Some(batch_size), ..self }
    }

    pub fn build(self) -> (r: EventStoreClient)
        ensures
            r.canister_id() == self.canister_id_spec(),
            r.synced() == self.synced_spec(),
            r.batch() == match self.batch_spec() {
                Some(b) => b,
                None => 1000u64,
            },
    {
        EventStoreClient {
            event_store_canister_id: self.event_store_canister_id,
            synced_up_to: self.synced_up_to,
            batch_size: match self.batch_size {
                Some(b) => b,
                None => 1000,
            },
        }
    }
}

} // verus!
