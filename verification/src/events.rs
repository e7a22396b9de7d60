use vstd::prelude::*;
use crate::records::CanonicalPayload;
use crate::records::PayloadV;

verus! {

/// The structured message emitted after every successful mutation. Its
/// `payload` always equals the record's post-mutation key/value.
#[derive(Debug, PartialEq, Eq)]
pub struct NotificationEvent {
    pub key: Vec<u8>,
    pub payload: CanonicalPayload,
    pub sender: Vec<u8>,
    pub metadata: Vec<u8>,
    pub metadata_groups: Vec<Vec<u8>>,
}

/// The mathematical model of a `NotificationEvent`.
#[verifier::ext_equal]
pub ghost struct NotificationEventV {
    pub key: Seq<u8>,
    pub payload: PayloadV,
    pub sender: Seq<u8>,
    pub metadata: Seq<u8>,
    pub metadata_groups: Seq<Seq<u8>>,
}

impl View for NotificationEvent {
    type V = NotificationEventV;

    open spec fn view(&self) -> NotificationEventV {
        NotificationEventV {
            key: self.key@,
            payload: self.payload@,
            sender: self.sender@,
            metadata: self.metadata@,
            metadata_groups: self.metadata_groups.deep_view(),
        }
    }
}

/// The message emitted by the logging-only operation; it has no
/// storage effect.
#[derive(Debug, PartialEq, Eq)]
pub struct AccessEvent {
    pub caller: Vec<u8>,
    pub message: Vec<u8>,
}

/// The mathematical model of an `AccessEvent`.
#[verifier::ext_equal]
pub ghost struct AccessEventV {
    pub caller: Seq<u8>,
    pub message: Seq<u8>,
}

impl View for AccessEvent {
    type V = AccessEventV;

    open spec fn view(&self) -> AccessEventV {
        AccessEventV { caller: self.caller@, message: self.message@ }
    }
}

/// One emitted message of either shape.
#[derive(Debug, PartialEq, Eq)]
pub enum Event {
    Notification(NotificationEvent),
    Access(AccessEvent),
}

/// The mathematical model of an `Event`.
#[verifier::ext_equal]
pub ghost enum EventV {
    Notification(NotificationEventV),
    Access(AccessEventV),
}

impl View for Event {
    type V = EventV;

    open spec fn view(&self) -> EventV {
        match self {
            Event::Notification(n) => EventV::Notification(n@),
            Event::Access(a) => EventV::Access(a@),
        }
    }
}

impl DeepView for Event {
    type V = EventV;

    open spec fn deep_view(&self) -> EventV {
        self.view()
    }
}

/// The fixed metadata attached to every notification.
pub open spec fn standard_metadata() -> Seq<u8> {
    seq![1u8, 2u8, 3u8]
}

/// Builds the fixed metadata attached to every notification.
pub fn make_standard_metadata() -> (m: Vec<u8>)
    ensures
        m@ == standard_metadata(),
{
    let mut m: Vec<u8> = Vec::new();
    m.push(1);
    m.push(2);
    m.push(3);
    proof {
        assert(m@ =~= standard_metadata());
    }
    m
}

/// The append-only publication channel. Events are only ever added at
/// the end, so the log order matches the order in which mutations were
/// applied.
pub struct Emitter {
    log: Vec<Event>,
}

impl View for Emitter {
    type V = Seq<EventV>;

    closed spec fn view(&self) -> Seq<EventV> {
        self.log.deep_view()
    }
}

impl Emitter {
    /// A fresh channel with nothing published.
    pub fn new() -> (e: Emitter)
        ensures
            e@ == Seq::<EventV>::empty(),
    {
        let e = Emitter { log: Vec::new() };
        proof {
            assert(e@ =~= Seq::<EventV>::empty());
        }
        e
    }

    /// Publishes one event at the end of the log. Emission never
    /// fails.
    pub fn emit(&mut self, e: Event)
        ensures
            final(self)@ == old(self)@.push(e@),
    {
        let ghost ev = e@;
        self.log.push(e);
        proof {
            assert(self@ =~= old(self)@.push(ev));
        }
    }

    /// The published events, oldest first.
    pub fn entries(&self) -> (r: &Vec<Event>)
        ensures
            r.deep_view() == self@,
    {
        &self.log
    }
}

} // verus!
