use vstd::prelude::*;

verus! {

use crate::TimestampMillis;
use crate::anonymizer::resolved;
use crate::interner::StringToNumMap;
use crate::types::{IdempotentEvent, IdempotentEventView, IndexedEvent, IndexedEventView};

/// An event as the log keeps it: strings replaced by intern ids.
pub struct StorableEvent {
    pub index: u64,
    pub name: u32,
    pub timestamp: TimestampMillis,
    pub user: Option<u32>,
    pub source: Option<u32>,
    pub payload: Vec<u8>,
}

/// The mathematical value of a [`StorableEvent`].
pub struct StorableEventView {
    pub index: u64,
    pub name: u32,
    pub timestamp: TimestampMillis,
    pub user: Option<u32>,
    pub source: Option<u32>,
    pub payload: Seq<u8>,
}

impl View for StorableEvent {
    type V = StorableEventView;

    open spec fn view(&self) -> StorableEventView {
        StorableEventView {
            index: self.index,
            name: self.name,
            timestamp: self.timestamp,
            user: self.user,
            source: self.source,
            payload: self.payload@,
        }
    }
}

/// What a stored event reads back as, given the intern table: ids are looked
/// up, an unknown name id degrades to the `"unknown"` sentinel, an unknown
/// user or source id to absence. Reads never fail.
pub open spec fn hydrated(ev: StorableEventView, strings: Seq<Seq<char>>) -> IndexedEventView {
    IndexedEventView {
        index: ev.index,
        name: if ev.name < strings.len() {
            strings[ev.name as int]
        } else {
            "unknown"@
        },
        timestamp: ev.timestamp,
        user: match ev.user {
            Some(u) => if u < strings.len() {
                Some(strings[u as int])
            } else {
                None
            },
            None => None,
        },
        source: match ev.source {
            Some(s) => if s < strings.len() {
                Some(strings[s as int])
            } else {
                None
            },
            None => None,
        },
        payload: ev.payload,
    }
}

/// What ingesting `e` at `index` must read back as: name, bucketed timestamp
/// and payload verbatim, user and source resolved with the salt.
pub open spec fn resolved_event(
    e: IdempotentEventView,
    salt: Seq<u8>,
    index: u64,
) -> IndexedEventView {
    IndexedEventView {
        index,
        name: e.name,
        timestamp: e.timestamp,
        user: match e.user {
            Some(t) => Some(resolved(t, salt)),
            None => None,
        },
        source: match e.source {
            Some(t) => Some(resolved(t, salt)),
            None => None,
        },
        payload: e.payload,
    }
}

/// The durable, append-only, indexed event log: the source of truth.
///
/// Indices are gapless and strictly increasing from zero. The log also owns
/// the intern table that compresses repeated strings. The legacy head
/// truncation (`remove`) discards from the front only; reads then interpret
/// `start` against the new earliest stored index.
pub struct Events {
    events: Vec<StorableEvent>,
    string_to_num_map: StringToNumMap,
    earliest: u64,
}

/// A snapshot of the log's bounds.
pub struct EventsStats {
    pub earliest_event_index_stored: Option<u64>,
    pub latest_event_index: Option<u64>,
}

impl Events {
    /// The stored (interned) events, oldest first.
    pub closed spec fn stored(&self) -> Seq<StorableEventView> {
        self.events@.map(|_i: int, ev: StorableEvent| ev@)
    }

    /// The intern table's strings.
    pub closed spec fn strings(&self) -> Seq<Seq<char>> {
        self.string_to_num_map.strings()
    }

    /// The index of the first event still stored.
    pub closed spec fn first_index(&self) -> u64 {
        self.earliest
    }

    /// The index the next accepted event gets: the number of events ever
    /// appended.
    pub open spec fn next_index(&self) -> int {
        self.first_index() + self.stored().len()
    }

    /// The events as range reads serve them.
    pub open spec fn indexed(&self) -> Seq<IndexedEventView> {
        Seq::new(self.stored().len(), |i: int| hydrated(self.stored()[i], self.strings()))
    }

    /// The intern table holds no string twice.
    pub closed spec fn interner_wf(&self) -> bool {
        self.string_to_num_map.wf()
    }

    /// Well-formedness: the intern table is consistent, every stored id is
    /// valid, and indices run gaplessly from the first stored index.
    pub open spec fn wf(&self) -> bool {
        &&& self.interner_wf()
        &&& self.next_index() <= u64::MAX
        &&& forall|i: int| #![trigger self.stored()[i]]
            0 <= i < self.stored().len() ==> {
                &&& self.stored()[i].index == self.first_index() + i
                &&& self.stored()[i].name < self.strings().len()
                &&& (self.stored()[i].user matches Some(u) ==> u < self.strings().len())
                &&& (self.stored()[i].source matches Some(s) ==> s < self.strings().len())
            }
    }

    pub fn new() -> (r: Events)
        ensures
            r.wf(),
            r.stored() == Seq::<StorableEventView>::empty(),
            r.strings() == Seq::<Seq<char>>::empty(),
            r.first_index() == 0,
    {
        let r = Events {
            events: Vec::new(),
            string_to_num_map: StringToNumMap::new(),
            earliest: 0,
        };
        assert(r.stored() =~= Seq::<StorableEventView>::empty());
        r
    }

    /// Converts one incoming event to its interned form under index `index`,
    /// resolving user and source with the salt and interning the strings.
    fn convert_to_storable(&mut self, event: IdempotentEvent, index: u64, salt: &[u8; 32]) -> (r:
        StorableEvent)
        requires
            old(self).wf(),
            old(self).strings().len() + 3 <= u32::MAX,
        ensures
            final(self).wf(),
            final(self).stored() == old(self).stored(),
            final(self).first_index() == old(self).first_index(),
            old(self).strings().len() <= final(self).strings().len() <= old(self).strings().len() + 3,
            forall|i: int|
                0 <= i < old(self).strings().len() ==> final(self).strings()[i] == old(
                    self,
                ).strings()[i],
            r@.index == index,
            r@.timestamp == event@.timestamp,
            r@.payload == event@.payload,
            r@.name < final(self).strings().len(),
            final(self).strings()[r@.name as int] == event@.name,
            match event@.user {
                Some(t) => r@.user matches Some(u) && u < final(self).strings().len()
                    && final(self).strings()[u as int] == resolved(t, salt@),
                None => r@.user is None,
            },
            match event@.source {
                Some(t) => r@.source matches Some(s) && s < final(self).strings().len()
                    && final(self).strings()[s as int] == resolved(t, salt@),
                None => r@.source is None,
            },
    {
        let name = self.string_to_num_map.convert_to_num(event.name);
        let user = match event.user {
            Some(u) => Some(
                self.string_to_num_map.convert_to_num(
                    crate::anonymizer::to_maybe_anonymized_string(u, salt),
                ),
            ),
            None => None,
        };
        let source = match event.source {
            Some(s) => Some(
                self.string_to_num_map.convert_to_num(
                    crate::anonymizer::to_maybe_anonymized_string(s, salt),
                ),
            ),
            None => None,
        };
        StorableEvent { index, name, timestamp: event.timestamp, user, source, payload: event.payload }
    }

    /// Appends one event: it gets the next gapless index, its strings are
    /// interned, and its user and source are resolved with the salt. Fails
    /// only on resource exhaustion, which the machine-limit preconditions
    /// exclude.
    pub fn push(&mut self, event: IdempotentEvent, salt: &[u8; 32]) -> (r: IndexedEvent)
        requires
            old(self).wf(),
            old(self).next_index() < u64::MAX,
            old(self).strings().len() + 3 <= u32::MAX,
        ensures
            final(self).wf(),
            final(self).first_index() == old(self).first_index(),
            final(self).stored().len() == old(self).stored().len() + 1,
            final(self).indexed() == old(self).indexed().push(
                resolved_event(event@, salt@, (old(self).next_index()) as u64),
            ),
            r@ == resolved_event(event@, salt@, (old(self).next_index()) as u64),
            old(self).strings().len() <= final(self).strings().len() <= old(self).strings().len()
                + 3,
    {
        let ghost old_indexed = self.indexed();
        let ghost old_strings = self.strings();
        let ghost old_stored = self.stored();
        let index = self.earliest + (self.events.len() as u64);
        let ghost eview = event@;
        let storable = self.convert_to_storable(event, index, salt);
        let ghost mid = *self;
        self.events.push(storable);
        proof {
            assert(self.stored() =~= mid.stored().push(storable@));
            assert(self.strings() == mid.strings());
            assert forall|i: int| #![trigger self.stored()[i]]
                0 <= i < self.stored().len() implies {
                &&& self.stored()[i].index == self.first_index() + i
                &&& self.stored()[i].name < self.strings().len()
                &&& (self.stored()[i].user matches Some(u) ==> u < self.strings().len())
                &&& (self.stored()[i].source matches Some(s) ==> s < self.strings().len())
            } by {
                if i < mid.stored().len() {
                    assert(mid.stored()[i] == old_stored[i]);
                    assert(old_stored[i].index == old(self).first_index() + i);
                }
            }
            assert(self.indexed() =~= old_indexed.push(
                resolved_event(eview, salt@, (old(self).next_index()) as u64),
            )) by {
                assert forall|i: int| 0 <= i < old_indexed.len() implies self.indexed()[i]
                    == old_indexed[i] by {
                    assert(self.stored()[i] == old_stored[i]);
                    assert(hydrated(old_stored[i], self.strings()) == hydrated(
                        old_stored[i],
                        old_strings,
                    ));
                }
                assert(self.indexed()[old_indexed.len() as int] == hydrated(
                    storable@,
                    self.strings(),
                ));
            }
        }
        let r = self.hydrate(self.events.len() - 1);
        proof {
            assert(r@ == self.indexed()[old_indexed.len() as int]);
        }
        r
    }

    /// Reads back one stored event, degrading unknown ids to sentinels.
    fn hydrate(&self, i: usize) -> (r: IndexedEvent)
        requires
            self.interner_wf(),
            i < self.stored().len(),
        ensures
            r@ == hydrated(self.stored()[i as int], self.strings()),
    {
        let ev = &self.events[i];
        let name = match self.string_to_num_map.convert_to_string(ev.name) {
            Some(s) => s,
            None => {
                let s = "unknown";
                s.to_owned()
            },
        };
        let user = match ev.user {
            Some(u) => self.string_to_num_map.convert_to_string(u),
            None => None,
        };
        let source = match ev.source {
            Some(s) => self.string_to_num_map.convert_to_string(s),
            None => None,
        };
        IndexedEvent {
            index: ev.index,
            name,
            timestamp: ev.timestamp,
            user,
            source,
            payload: ev.payload.clone(),
        }
    }

    /// Returns up to `length` contiguous events starting at index `start`:
    /// empty when `start` lies before the earliest stored index or beyond the
    /// stored range; never an error.
    pub fn get(&self, start: u64, length: u64) -> (r: Vec<IndexedEvent>)
        requires
            self.wf(),
        ensures
            views_of(r@) == self.read_range(start, length),
    {
        let len = self.events.len();
        if start >= self.earliest && (start - self.earliest) < (len as u64) {
            let offset = (start - self.earliest) as usize;
            let avail = (len - offset) as u64;
            let take = if length < avail {
                length
            } else {
                avail
            };
            let end = offset + (take as usize);
            let mut r: Vec<IndexedEvent> = Vec::new();
            let mut i: usize = offset;
            while i < end
                invariant
                    self.wf(),
                    offset <= i <= end <= self.stored().len(),
                    r@.len() == i - offset,
                    forall|j: int| #![trigger r@[j]]
                        0 <= j < r@.len() ==> r@[j]@ == self.indexed()[offset + j],
                decreases end - i,
            {
                let ev = self.hydrate(i);
                let ghost rv = r@;
                r.push(ev);
                proof {
                    assert(r@ == rv.push(ev));
                    assert forall|j: int| #![trigger r@[j]]
                        0 <= j < r@.len() implies r@[j]@ == self.indexed()[offset + j] by {
                        if j < rv.len() {
                            assert(r@[j] == rv[j]);
                        } else {
                            assert(r@[j] == ev);
                            assert(ev@ == hydrated(self.stored()[i as int], self.strings()));
                            assert(self.indexed()[i as int] == hydrated(
                                self.stored()[i as int],
                                self.strings(),
                            ));
                        }
                    }
                }
                i += 1;
            }
            proof {
                let expected = self.read_range(start, length);
                assert(expected == self.indexed().subrange(offset as int, end as int));
                assert(views_of(r@).len() == expected.len());
                assert forall|j: int| 0 <= j < views_of(r@).len() implies views_of(r@)[j]
                    == expected[j] by {
                    assert(views_of(r@)[j] == r@[j]@);
                    assert(r@[j]@ == self.indexed()[offset + j]);
                    assert(expected[j] == self.indexed()[offset + j]);
                }
                assert(views_of(r@) =~= expected);
            }
            r
        } else {
            let r: Vec<IndexedEvent> = Vec::new();
            proof {
                assert(views_of(r@) =~= self.read_range(start, length));
            }
            r
        }
    }

    /// What a range read serves: the hydrated events with indices in
    /// `[start, start + length)`, clipped to the stored range; empty when
    /// `start` lies outside it.
    pub open spec fn read_range(&self, start: u64, length: u64) -> Seq<IndexedEventView> {
        let lo = start - self.first_index();
        if self.first_index() <= start && lo < self.stored().len() {
            let hi = if lo + length < self.stored().len() {
                lo + length
            } else {
                self.stored().len() as int
            };
            self.indexed().subrange(lo, hi)
        } else {
            Seq::empty()
        }
    }

    /// The log's bounds: `latest_event_index` counts every event ever
    /// appended, surviving head truncation; `earliest_event_index_stored` is
    /// the first index still held.
    pub fn stats(&self) -> (r: EventsStats)
        requires
            self.wf(),
        ensures
            r.latest_event_index == if self.next_index() > 0 {
                Some((self.next_index() - 1) as u64)
            } else {
                None::<u64>
            },
            r.earliest_event_index_stored == if self.stored().len() > 0 {
                Some(self.first_index())
            } else {
                None::<u64>
            },
    {
        let latest = if self.events.len() > 0 || self.earliest > 0 {
            Some(self.earliest + (self.events.len() as u64) - 1)
        } else {
            None
        };
        EventsStats {
            earliest_event_index_stored: if self.events.len() > 0 {
                Some(self.earliest)
            } else {
                None
            },
            latest_event_index: latest,
        }
    }

    /// How many strings the intern table holds.
    pub fn strings_len(&self) -> (r: usize)
        ensures
            r == self.strings().len(),
    {
        self.string_to_num_map.len()
    }

    /// The first stored index, absent when nothing is stored.
    pub fn earliest_event_index_stored(&self) -> (r: Option<u64>)
        ensures
            r == if self.stored().len() > 0 {
                Some(self.first_index())
            } else {
                None::<u64>
            },
    {
        if self.events.len() > 0 {
            Some(self.earliest)
        } else {
            None
        }
    }

    /// Legacy head truncation: irreversibly discards every stored event with
    /// index at most `up_to_inclusive`. Later indices, and the indices future
    /// events get, are unaffected.
    pub fn remove(&mut self, up_to_inclusive: u64)
        requires
            old(self).wf(),
        ensures
            final(self).wf(),
            final(self).strings() == old(self).strings(),
            final(self).next_index() == old(self).next_index(),
            ({
                let cut = if up_to_inclusive + 1 < old(self).first_index() {
                    old(self).first_index() as int
                } else if up_to_inclusive + 1 > old(self).next_index() {
                    old(self).next_index()
                } else {
                    up_to_inclusive + 1
                };
                &&& final(self).first_index() == cut
                &&& final(self).indexed() == old(self).indexed().skip(
                    cut - old(self).first_index(),
                )
            }),
    {
        let ghost old_self = *self;
        let mut k: usize = 0;
        let len = self.events.len();
        while k < len && self.events[k].index <= up_to_inclusive
            invariant
                *self == old_self,
                self.wf(),
                len == self.events.len(),
                0 <= k <= len,
                forall|i: int| 0 <= i < k ==> self.stored()[i].index <= up_to_inclusive,
                k > 0 ==> self.stored()[k - 1].index <= up_to_inclusive,
            decreases len - k,
        {
            k += 1;
        }
        // Every event before position k has index <= up_to_inclusive and
        // every one from k on has a larger index.
        let remaining = self.events.split_off(k);
        self.events = remaining;
        self.earliest = self.earliest + (k as u64);
        proof {
            assert(self.stored() =~= old_self.stored().skip(k as int));
            assert forall|i: int| #![trigger self.stored()[i]]
                0 <= i < self.stored().len() implies {
                &&& self.stored()[i].index == self.first_index() + i
                &&& self.stored()[i].name < self.strings().len()
                &&& (self.stored()[i].user matches Some(u) ==> u < self.strings().len())
                &&& (self.stored()[i].source matches Some(s) ==> s < self.strings().len())
            } by {
                assert(self.stored()[i] == old_self.stored()[k + i]);
            }
            let cut = if up_to_inclusive + 1 < old_self.first_index() {
                old_self.first_index() as int
            } else if up_to_inclusive + 1 > old_self.next_index() {
                old_self.next_index()
            } else {
                up_to_inclusive + 1
            };
            if k < len {
                assert(old_self.stored()[k as int].index == old_self.first_index() + k);
            }
            assert(self.first_index() == cut);
            assert(self.indexed() =~= old_self.indexed().skip(cut - old_self.first_index()));
        }
    }
}

/// A legacy event as re-appending it to the current log serves it back:
/// every field kept, only the index newly assigned.
pub open spec fn migrated_view(v: IndexedEventView, idx: u64) -> IndexedEventView {
    IndexedEventView { index: idx, ..v }
}

/// The views of a vector of served events.
pub open spec fn views_of(events: Seq<IndexedEvent>) -> Seq<IndexedEventView> {
    Seq::new(events.len(), |i: int| events[i]@)
}

impl Events {
    /// Re-appends an already-resolved (legacy) event: its strings are
    /// interned afresh and it gets the next gapless index; every other field
    /// is kept as it was.
    pub fn append_indexed(&mut self, event: IndexedEvent) -> (r: IndexedEvent)
        requires
            old(self).wf(),
            old(self).next_index() < u64::MAX,
            old(self).strings().len() + 3 <= u32::MAX,
        ensures
            final(self).wf(),
            final(self).first_index() == old(self).first_index(),
            final(self).indexed() == old(self).indexed().push(
                migrated_view(event@, (old(self).next_index()) as u64),
            ),
            r@ == migrated_view(event@, (old(self).next_index()) as u64),
            old(self).strings().len() <= final(self).strings().len() <= old(self).strings().len()
                + 3,
    {
        let ghost ev = event@;
        let e = IdempotentEvent {
            idempotency_key: 0,
            name: event.name,
            timestamp: event.timestamp,
            user: match event.user {
                Some(u) => Some(crate::types::Anonymizable::Public(u)),
                None => None,
            },
            source: match event.source {
                Some(s) => Some(crate::types::Anonymizable::Public(s)),
                None => None,
            },
            payload: event.payload,
        };
        let zero = [0u8; 32];
        let ghost idx = (old(self).next_index()) as u64;
        let r = self.push(e, &zero);
        proof {
            assert(resolved_event(e@, zero@, idx) == migrated_view(ev, idx));
        }
        r
    }
}

impl Default for Events {
    fn default() -> (r: Self)
        ensures
            r.wf(),
            r.stored() == Seq::<StorableEventView>::empty(),
            r.strings() == Seq::<Seq<char>>::empty(),
            r.first_index() == 0,
    {
        Events::new()
    }
}

} // verus!
