//! The reactor map and typed dispatch.
//!
//! An agent registers at most one reactor per message type; the map sends a
//! type tag to the slot of the handler that the runtime keeps for it.
use crate::message::{Envelope, InternalMessage, Payload, SystemSignal};
use crate::slot_map::SlotMap;
use vstd::prelude::*;

verus! {

/// Where a dequeued payload goes.
#[derive(Debug, Clone, Copy, PartialEq, Eq, Structural)]
pub enum Route {
    /// To the reactor in this handler slot.
    Reactor(u64),
    /// To the shutdown path.
    Terminate,
    /// To the broker's own subscription handling.
    Control(InternalMessage),
    /// To the broker's fan-out of a request of this type.
    Publish(u64),
    /// Nowhere: no reactor is registered for its type, so it is dropped.
    Unhandled,
}

/// The route of a payload under reactor map `m`. A broker request goes where
/// its inner message goes.
pub open spec fn route_spec<B>(m: Map<u64, u64>, p: Payload<B>) -> Route {
    match p {
        Payload::Message { type_tag, .. } | Payload::BrokerRequest { type_tag, .. } => {
            if m.contains_key(type_tag) {
                Route::Reactor(m[type_tag])
            } else {
                Route::Unhandled
            }
        },
        Payload::Signal(SystemSignal::Terminate) => Route::Terminate,
        Payload::Internal(msg) => Route::Control(msg),
    }
}

/// A broker request becomes the plain message it carries, with the same body
/// and return address; anything else is left as it is.
pub open spec fn unwrap_spec<B>(e: Envelope<B>) -> Envelope<B> {
    match e.payload {
        Payload::BrokerRequest { type_tag, body } => Envelope {
            payload: Payload::Message { type_tag, body },
            return_address: e.return_address,
        },
        _ => e,
    }
}

/// Replaces a broker request by the message inside it.
pub fn unwrap_broker_request<B>(e: Envelope<B>) -> (r: Envelope<B>)
    ensures
        r == unwrap_spec(e),
{
    let Envelope { payload, return_address } = e;
    match payload {
        Payload::BrokerRequest { type_tag, body } => Envelope {
            payload: Payload::Message { type_tag, body },
            return_address,
        },
        other => Envelope { payload: other, return_address },
    }
}

/// The reactors of one agent: message type tag to handler slot.
pub struct ReactorMap {
    table: SlotMap,
}

impl View for ReactorMap {
    type V = Map<u64, u64>;

    closed spec fn view(&self) -> Map<u64, u64> {
        self.table@
    }
}

impl ReactorMap {
    pub closed spec fn wf(&self) -> bool {
        self.table.wf()
    }

    pub fn new() -> (r: ReactorMap)
        ensures
            r.wf(),
            r@ == Map::<u64, u64>::empty(),
    {
        ReactorMap { table: SlotMap::new() }
    }

    /// Registers the handler in `slot` for `type_tag`, replacing any earlier one.
    pub fn register(&mut self, type_tag: u64, slot: u64)
        requires
            old(self).wf(),
        ensures
            final(self).wf(),
            final(self)@ == old(self)@.insert(type_tag, slot),
    {
        self.table.insert(type_tag, slot);
    }

    /// The slot registered for `type_tag`, if any.
    pub fn lookup(&self, type_tag: u64) -> (r: Option<u64>)
        ensures
            r == (if self@.contains_key(type_tag) { Some(self@[type_tag]) } else { None }),
    {
        self.table.get(type_tag)
    }

    /// Where `payload` goes.
    pub fn route<B>(&self, payload: &Payload<B>) -> (r: Route)
        ensures
            r == route_spec(self@, *payload),
    {
        match payload {
            Payload::Message { type_tag, .. } | Payload::BrokerRequest { type_tag, .. } => {
                match self.lookup(*type_tag) {
                    Some(slot) => Route::Reactor(slot),
                    None => Route::Unhandled,
                }
            },
            Payload::Signal(SystemSignal::Terminate) => Route::Terminate,
            Payload::Internal(msg) => Route::Control(*msg),
        }
    }
}

/// Registering two reactors for one type keeps the second only: a message of
/// that type goes to the later slot.
pub proof fn lemma_last_registration_wins<B>(
    m: Map<u64, u64>,
    type_tag: u64,
    first: u64,
    second: u64,
    body: B,
)
    ensures
        route_spec(m.insert(type_tag, first).insert(type_tag, second), Payload::Message { type_tag, body })
            == Route::Reactor(second),
        m.insert(type_tag, first).insert(type_tag, second) == m.insert(type_tag, second),
{
    assert(m.insert(type_tag, first).insert(type_tag, second) =~= m.insert(type_tag, second));
}

/// A broker request for a type that the agent has a reactor for reaches that
/// reactor as the inner message itself, with its body and return address.
pub proof fn lemma_broker_request_unwrapped<B>(m: Map<u64, u64>, e: Envelope<B>)
    requires
        e.payload is BrokerRequest,
        m.contains_key(e.payload->BrokerRequest_type_tag),
    ensures
        unwrap_spec(e).payload == (Payload::Message {
            type_tag: e.payload->BrokerRequest_type_tag,
            body: e.payload->BrokerRequest_body,
        }),
        unwrap_spec(e).return_address == e.return_address,
        route_spec(m, unwrap_spec(e).payload) == Route::Reactor(
            m[e.payload->BrokerRequest_type_tag],
        ),
{
}

} // verus!
