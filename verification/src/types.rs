use vstd::prelude::*;

verus! {

use crate::TimestampMillis;

/// A string field of an event, tagged with whether it must be hashed before
/// it is persisted (`Anonymize`) or stored verbatim (`Public`).
#[derive(Clone, Debug)]
pub enum Anonymizable {
    Public(String),
    Anonymize(String),
}

/// The mathematical value of an [`Anonymizable`]: the tag and the characters.
pub enum TaggedString {
    Public(Seq<char>),
    Anonymize(Seq<char>),
}

impl TaggedString {
    /// The characters carried, whichever the tag.
    pub open spec fn chars(self) -> Seq<char> {
        match self {
            TaggedString::Public(s) => s,
            TaggedString::Anonymize(s) => s,
        }
    }
}

impl View for Anonymizable {
    type V = TaggedString;

    open spec fn view(&self) -> TaggedString {
        match self {
            Anonymizable::Public(s) => TaggedString::Public(s@),
            Anonymizable::Anonymize(s) => TaggedString::Anonymize(s@),
        }
    }
}

impl Anonymizable {
    pub fn new(value: String, anonymize: bool) -> (r: Anonymizable)
        ensures
            r@ == if anonymize { TaggedString::Anonymize(value@) } else { TaggedString::Public(value@) },
    {
        if anonymize {
            Anonymizable::Anonymize(value)
        } else {
            Anonymizable::Public(value)
        }
    }

    pub fn as_str(&self) -> (r: &str)
        ensures
            r@ == self@.chars(),
    {
        match self {
            Anonymizable::Public(s) => s.as_str(),
            Anonymizable::Anonymize(s) => s.as_str(),
        }
    }

    pub fn is_public(&self) -> (r: bool)
        ensures
            r == (self@ matches TaggedString::Public(_)),
    {
        matches!(self, Anonymizable::Public(_))
    }
}

/// An event as the application hands it to the producer queue: not yet given
/// an idempotency token.
#[derive(Clone, Debug)]
pub struct Event {
    pub(crate) name: String,
    pub(crate) timestamp: TimestampMillis,
    pub(crate) user: Option<Anonymizable>,
    pub(crate) source: Option<Anonymizable>,
    pub(crate) payload: Vec<u8>,
}

/// The mathematical value of an [`Event`].
pub struct EventView {
    pub name: Seq<char>,
    pub timestamp: TimestampMillis,
    pub user: Option<TaggedString>,
    pub source: Option<TaggedString>,
    pub payload: Seq<u8>,
}

impl View for Event {
    type V = EventView;

    closed spec fn view(&self) -> EventView {
        EventView {
            name: self.name@,
            timestamp: self.timestamp,
            user: match self.user {
                Some(u) => Some(u@),
                None => None,
            },
            source: match self.source {
                Some(s) => Some(s@),
                None => None,
            },
            payload: self.payload@,
        }
    }
}

/// Step-by-step construction of an [`Event`].
pub struct EventBuilder {
    name: String,
    timestamp: TimestampMillis,
    user: Option<Anonymizable>,
    source: Option<Anonymizable>,
    payload: Vec<u8>,
}

impl View for EventBuilder {
    type V = EventView;

    closed spec fn view(&self) -> EventView {
        EventView {
            name: self.name@,
            timestamp: self.timestamp,
            user: match self.user {
                Some(u) => Some(u@),
                None => None,
            },
            source: match self.source {
                Some(s) => Some(s@),
                None => None,
            },
            payload: self.payload@,
        }
    }
}

impl EventBuilder {
    pub fn new(name: String, timestamp: TimestampMillis) -> (r: EventBuilder)
        ensures
            r@.name == name@,
            r@.timestamp == timestamp,
            r@.user is None,
            r@.source is None,
            r@.payload == Seq::<u8>::empty(),
    {
        EventBuilder { name, timestamp, user: None, source: None, payload: Vec::new() }
    }

    pub fn with_user(self, user: String, anonymize: bool) -> (r: EventBuilder)
        ensures
            r@ == (EventView {
                user: Some(if anonymize { TaggedString::Anonymize(user@) } else { TaggedString::Public(user@) }),
                ..self@
            }),
    {
        EventBuilder { user: Some(Anonymizable::new(user, anonymize)), ..self }
    }

    pub fn with_maybe_user(self, user: Option<String>, anonymize: bool) -> (r: EventBuilder)
        ensures
            r@ == (EventView {
                user: match user {
                    Some(u) => Some(if anonymize { TaggedString::Anonymize(u@) } else { TaggedString::Public(u@) }),
                    None => None,
                },
                ..self@
            }),
    {
        match user {
            Some(u) => EventBuilder { user: Some(Anonymizable::new(u, anonymize)), ..self },
            None => EventBuilder { user: None, ..self },
        }
    }

    pub fn with_source(self, source: String, anonymize: bool) -> (r: EventBuilder)
        ensures
            r@ == (EventView {
                source: Some(if anonymize { TaggedString::Anonymize(source@) } else { TaggedString::Public(source@) }),
                ..self@
            }),
    {
        EventBuilder { source: Some(Anonymizable::new(source, anonymize)), ..self }
    }

    pub fn with_maybe_source(self, source: Option<String>, anonymize: bool) -> (r: EventBuilder)
        ensures
            r@ == (EventView {
                source: match source {
                    Some(s) => Some(if anonymize { TaggedString::Anonymize(s@) } else { TaggedString::Public(s@) }),
                    None => None,
                },
                ..self@
            }),
    {
        match source {
            Some(s) => EventBuilder { source: Some(Anonymizable::new(s, anonymize)), ..self },
            None => EventBuilder { source: None, ..self },
        }
    }

    pub fn with_payload(self, payload: Vec<u8>) -> (r: EventBuilder)
        ensures
            r@ == (EventView { payload: payload@, ..self@ }),
    {
        EventBuilder { payload, ..self }
    }

    pub fn build(self) -> (r: Event)
        ensures
            r@ == self@,
    {
        Event {
            name: self.name,
            timestamp: self.timestamp,
            user: self.user,
            source: self.source,
            payload: self.payload,
        }
    }
}

/// An event tagged by the producer with a 128-bit idempotency token; the unit
/// the store ingests.
#[derive(Clone, Debug)]
pub struct IdempotentEvent {
    pub idempotency_key: u128,
    pub name: String,
    pub timestamp: TimestampMillis,
    pub user: Option<Anonymizable>,
    pub source: Option<Anonymizable>,
    pub payload: Vec<u8>,
}

/// The mathematical value of an [`IdempotentEvent`].
pub struct IdempotentEventView {
    pub idempotency_key: u128,
    pub name: Seq<char>,
    pub timestamp: TimestampMillis,
    pub user: Option<TaggedString>,
    pub source: Option<TaggedString>,
    pub payload: Seq<u8>,
}

impl View for IdempotentEvent {
    type V = IdempotentEventView;

    open spec fn view(&self) -> IdempotentEventView {
        IdempotentEventView {
            idempotency_key: self.idempotency_key,
            name: self.name@,
            timestamp: self.timestamp,
            user: match self.user {
                Some(u) => Some(u@),
                None => None,
            },
            source: match self.source {
                Some(s) => Some(s@),
                None => None,
            },
            payload: self.payload@,
        }
    }
}

/// An event as the store serves it back: indexed, with its timestamp bucketed
/// and its user and source resolved to plain strings.
#[derive(Clone, Debug)]
pub struct IndexedEvent {
    pub index: u64,
    pub name: String,
    pub timestamp: TimestampMillis,
    pub user: Option<String>,
    pub source: Option<String>,
    pub payload: Vec<u8>,
}

/// The mathematical value of an [`IndexedEvent`].
pub struct IndexedEventView {
    pub index: u64,
    pub name: Seq<char>,
    pub timestamp: TimestampMillis,
    pub user: Option<Seq<char>>,
    pub source: Option<Seq<char>>,
    pub payload: Seq<u8>,
}

impl View for IndexedEvent {
    type V = IndexedEventView;

    open spec fn view(&self) -> IndexedEventView {
        IndexedEventView {
            index: self.index,
            name: self.name@,
            timestamp: self.timestamp,
            user: match self.user {
                Some(u) => Some(u@),
                None => None,
            },
            source: match self.source {
                Some(s) => Some(s@),
                None => None,
            },
            payload: self.payload@,
        }
    }
}

impl Event {
    /// Tags this event with a producer-generated idempotency token.
    pub fn to_idempotent(self, idempotency_key: u128) -> (r: IdempotentEvent)
        ensures
            r@.idempotency_key == idempotency_key,
            r@.name == self@.name,
            r@.timestamp == self@.timestamp,
            r@.user == self@.user,
            r@.source == self@.source,
            r@.payload == self@.payload,
    {
        IdempotentEvent {
            idempotency_key,
            name: self.name,
            timestamp: self.timestamp,
            user: self.user,
            source: self.source,
            payload: self.payload,
        }
    }

}

/// Strips the idempotency token off again.
impl From<IdempotentEvent> for Event {
    fn from(value: IdempotentEvent) -> (r: Event) {
        Event {
            name: value.name,
            timestamp: value.timestamp,
            user: value.user,
            source: value.source,
            payload: value.payload,
        }
    }
}

impl vstd::std_specs::convert::FromSpecImpl<IdempotentEvent> for Event {
    open spec fn obeys_from_spec() -> bool {
        true
    }

    closed spec fn from_spec(t: IdempotentEvent) -> Event {
        Event {
            name: t.name,
            timestamp: t.timestamp,
            user: t.user,
            source: t.source,
            payload: t.payload,
        }
    }
}

/// True exactly when the slice holds no elements; lets serialization skip an
/// empty payload.
pub fn is_empty_slice<T>(vec: &[T]) -> (r: bool)
    ensures
        r == (vec@.len() == 0),
{
    vec.is_empty()
}

} // verus!
