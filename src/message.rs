//! Messages, envelopes and return addresses.
//!
//! A user message travels as an opaque body `B` together with its type tag,
//! the integer that names its type; dispatch looks only at the tag.
use crate::mailbox::{send_spec, Mailbox, SendError};
use vstd::prelude::*;

verus! {

/// System-wide signals used to control an agent's lifecycle.
#[derive(Debug, Clone, Copy, PartialEq, Eq, Structural)]
#[non_exhaustive]
pub enum SystemSignal {
    /// Asks the agent to finish the messages queued before this one, run its
    /// stop hooks, stop its children and end.
    Terminate,
}

/// Messages that the runtime addresses to the broker on an agent's behalf.
#[derive(Debug, Clone, Copy, PartialEq, Eq, Structural)]
pub enum InternalMessage {
    /// Deliver broker requests of type `type_tag` to `subscriber`.
    Subscribe { type_tag: u64, subscriber: u64 },
    /// Stop delivering broker requests of type `type_tag` to `subscriber`.
    Unsubscribe { type_tag: u64, subscriber: u64 },
}

/// What an envelope carries.
#[derive(Debug)]
pub enum Payload<B> {
    /// A user message of the type named by `type_tag`.
    Message { type_tag: u64, body: B },
    /// A user message handed to the broker for fan-out, or handed on by it.
    BrokerRequest { type_tag: u64, body: B },
    Signal(SystemSignal),
    Internal(InternalMessage),
}

/// Where replies to a message go: the key of the agent that sent it.
#[derive(Debug, Clone, Copy, PartialEq, Eq, Structural)]
pub struct ReturnAddress {
    pub sender: u64,
}

/// A payload and the address of its sender.
#[derive(Debug)]
pub struct Envelope<B> {
    pub payload: Payload<B>,
    pub return_address: Option<ReturnAddress>,
}

impl<B> Envelope<B> {
    pub fn new(payload: Payload<B>, return_address: Option<ReturnAddress>) -> (r: Envelope<B>)
        ensures
            r == (Envelope { payload, return_address }),
    {
        Envelope { payload, return_address }
    }
}

/// A capability to send to one agent's mailbox on behalf of `sender`.
#[derive(Debug, Clone, Copy, PartialEq, Eq, Structural)]
pub struct OutboundEnvelope {
    pub sender: u64,
    pub reply_to: Option<u64>,
}

impl OutboundEnvelope {
    pub fn new(reply_to: Option<u64>, sender: u64) -> (r: OutboundEnvelope)
        ensures
            r == (OutboundEnvelope { sender, reply_to }),
    {
        OutboundEnvelope { sender, reply_to }
    }

    /// The envelope in which `payload` leaves: it carries this sender's address.
    pub fn seal<B>(&self, payload: Payload<B>) -> (r: Envelope<B>)
        ensures
            r == (Envelope {
                payload,
                return_address: Some(ReturnAddress { sender: self.sender }),
            }),
    {
        Envelope { payload, return_address: Some(ReturnAddress { sender: self.sender }) }
    }

    /// Sends `payload`, sealed, into `mailbox`, the mailbox of `reply_to`.
    /// Without a recipient nothing is sent and the call succeeds.
    pub fn reply<B>(&self, mailbox: &mut Mailbox<Envelope<B>>, payload: Payload<B>) -> (r: Result<
        (),
        SendError<Envelope<B>>,
    >)
        requires
            old(mailbox).wf(),
        ensures
            final(mailbox).wf(),
            self.reply_to is None ==> r is Ok && final(mailbox)@ == old(mailbox)@,
            self.reply_to is Some ==> final(mailbox)@ == send_spec(
                old(mailbox)@,
                Envelope { payload, return_address: Some(ReturnAddress { sender: self.sender }) },
            ).0 && (r is Ok <==> send_spec(
                old(mailbox)@,
                Envelope { payload, return_address: Some(ReturnAddress { sender: self.sender }) },
            ).1),
    {
        match self.reply_to {
            None => Ok(()),
            Some(_) => mailbox.try_send(self.seal(payload)),
        }
    }
}

} // verus!
