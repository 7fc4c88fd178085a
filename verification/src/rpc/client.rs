//! The remote strategy: requests leave as frames over a streaming transport
//! and responses come back as frames among its events. The client keeps the
//! protocol and leaves the transport to its host: the host sends what `send`
//! queued and hands over what the transport received.

use crate::rpc::contract::{Command, Id, Message};
use std::collections::VecDeque;
use vstd::prelude::*;

verus! {

/// A message of the transport.
#[derive(Debug, Clone, PartialEq, Eq)]
pub enum WsMessage {
    Binary(Vec<u8>),
    Text(String),
    Unknown(String),
    Ping(Vec<u8>),
    Pong(Vec<u8>),
}

/// What the transport reports.
#[derive(Debug, Clone, PartialEq, Eq)]
pub enum WsEvent {
    Opened,
    Message(WsMessage),
    Error(String),
    Closed,
}

/// The event carries a binary message: a frame of the protocol.
pub open spec fn is_frame(event: WsEvent) -> bool {
    event matches WsEvent::Message(WsMessage::Binary(_))
}

/// `after` is the client `before` once it has looked for a frame among its
/// waiting events, and `frame` is what it found: the bytes of the first
/// binary message, with the events up to it dropped and those behind it kept;
/// or nothing, with no binary message among the events and all of them
/// dropped.
pub open spec fn received_frame(before: RpcClient, after: RpcClient, frame: Option<Vec<u8>>) -> bool {
    &&& after.outgoing() == before.outgoing()
    &&& match frame {
        Some(bytes) => {
            let k = before.events().len() - after.events().len() - 1;
            &&& 0 <= k < before.events().len()
            &&& before.events()[k] == WsEvent::Message(WsMessage::Binary(bytes))
            &&& forall|j: int| 0 <= j < k ==> !is_frame(#[trigger] before.events()[j])
            &&& after.events() == before.events().subrange(k + 1, before.events().len() as int)
        },
        None => {
            &&& after.events().len() == 0
            &&& forall|j: int|
                0 <= j < before.events().len() ==> !is_frame(#[trigger] before.events()[j])
        },
    }
}

/// The protocol state of one connection to a backend.
pub struct RpcClient {
    outgoing: Vec<Message>,
    events: VecDeque<WsEvent>,
}

impl RpcClient {
    /// The requests that wait to be sent, oldest first.
    pub closed spec fn outgoing(&self) -> Seq<Message> {
        self.outgoing@
    }

    /// The transport events that wait to be looked at, oldest first.
    pub closed spec fn events(&self) -> Seq<WsEvent> {
        self.events@
    }

    /// A client with nothing to send and nothing received.
    pub fn new() -> (client: Self)
        ensures
            client.outgoing().len() == 0,
            client.events().len() == 0,
    {
        RpcClient { outgoing: Vec::new(), events: VecDeque::new() }
    }

    /// Queues the request that pairs `command` with the correlation id `id`.
    pub fn send(&mut self, id: Id, command: Command)
        ensures
            final(self).outgoing() == old(self).outgoing().push(Message { id, command }),
            final(self).events() == old(self).events(),
    {
        self.outgoing.push(Message { id, command });
    }

    /// Hands over the queued requests, oldest first, for the host to put on
    /// the transport, one frame each.
    pub fn take_outgoing(&mut self) -> (requests: Vec<Message>)
        ensures
            requests@ == old(self).outgoing(),
            final(self).outgoing().len() == 0,
            final(self).events() == old(self).events(),
    {
        let mut requests: Vec<Message> = Vec::new();
        std::mem::swap(&mut self.outgoing, &mut requests);
        requests
    }

    /// Takes in an event that the transport reported.
    pub fn handle_event(&mut self, event: WsEvent)
        ensures
            final(self).events() == old(self).events().push(event),
            final(self).outgoing() == old(self).outgoing(),
    {
        self.events.push_back(event);
    }

    /// Looks through the waiting events up to the first frame and hands out
    /// its bytes; the events before it are dropped, those behind it wait for
    /// the next call. Without a frame among them all events are dropped.
    pub fn receive(&mut self) -> (frame: Option<Vec<u8>>)
        ensures
            received_frame(*old(self), *final(self), frame),
    {
        let mut frame: Option<Vec<u8>> = None;
        let mut more = true;
        while more
            invariant
                self.outgoing() == old(self).outgoing(),
                self.events().len() <= old(self).events().len(),
                more ==> frame is None,
                more ==> self.events() == old(self).events().subrange(
                    old(self).events().len() - self.events().len(),
                    old(self).events().len() as int,
                ),
                more ==> forall|j: int|
                    0 <= j < old(self).events().len() - self.events().len() ==> !is_frame(
                        #[trigger] old(self).events()[j],
                    ),
                !more ==> match frame {
                    Some(bytes) => {
                        let k = old(self).events().len() - self.events().len() - 1;
                        &&& 0 <= k < old(self).events().len()
                        &&& old(self).events()[k] == WsEvent::Message(WsMessage::Binary(bytes))
                        &&& forall|j: int|
                            0 <= j < k ==> !is_frame(#[trigger] old(self).events()[j])
                        &&& self.events() == old(self).events().subrange(
                            k + 1,
                            old(self).events().len() as int,
                        )
                    },
                    None => {
                        &&& self.events().len() == 0
                        &&& forall|j: int|
                            0 <= j < old(self).events().len() ==> !is_frame(
                                #[trigger] old(self).events()[j],
                            )
                    },
                },
            decreases
                    self.events().len() + if more {
                        1int
                    } else {
                        0int
                    },
        {
            let ghost before = self.events();
            match self.events.pop_front() {
                Some(WsEvent::Message(WsMessage::Binary(bytes))) => {
                    frame = Some(bytes);
                    more = false;
                },
                Some(_) => {},
                None => {
                    more = false;
                },
            }
            proof {
                let skipped = old(self).events().len() - before.len();
                if before.len() > 0 {
                    assert(before[0] == old(self).events()[skipped]);
                    assert(self.events() =~= old(self).events().subrange(
                        skipped + 1,
                        old(self).events().len() as int,
                    ));
                }
            }
        }
        frame
    }
}

} // verus!
