//! The editor's notification client: it serves the notification topic and
//! hands the texts to whoever shows them.

use crate::broker::arena::ClientHandle;
use crate::broker::broker::subscribed;
use crate::broker::client::Client;
use crate::widget::contract::{notify_topic, Broker, ClientArena, Message};
use crate::widget::filesystem::views;
use vstd::prelude::*;

verus! {

/// The id of the one who notifies.
pub type Id = String;

/// Capacity of the mailbox in which notifications are collected.
pub const NOTIFICATION_QUEUE_SIZE: usize = 100;

/// The editor's client on the notification topic.
pub struct NotificationClient {
    client: ClientHandle,
    subscribed: bool,
}

/// The texts of the notifications among `messages`, in their order.
pub open spec fn notifications(messages: Seq<Message>) -> Seq<Seq<char>>
    decreases messages.len(),
{
    if messages.len() == 0 {
        Seq::empty()
    } else {
        let before = notifications(messages.drop_last());
        match messages.last() {
            Message::Notify { text } => before.push(text@),
            _ => before,
        }
    }
}

impl NotificationClient {
    /// The handle of the mailbox in which notifications are collected.
    pub closed spec fn handle(&self) -> ClientHandle {
        self.client
    }

    /// The notification topic has been subscribed to.
    pub closed spec fn is_subscribed(&self) -> bool {
        self.subscribed
    }

    /// A client that has not subscribed yet; its mailbox is made in `arena`.
    pub fn new(arena: &mut ClientArena) -> (client: Self)
        requires
            old(arena).wf(),
        ensures
            final(arena).wf(),
            final(arena)@.len() == old(arena)@.len() + 1,
            final(arena)@.drop_last() == old(arena)@,
            client.handle().index() == old(arena)@.len(),
            final(arena).alive(client.handle()),
            final(arena).client(client.handle()).queue().len() == 0,
            final(arena).client(client.handle()).capacity() == NOTIFICATION_QUEUE_SIZE,
            !client.is_subscribed(),
    {
        let client = arena.insert(Client::with_ring_buffer_size(NOTIFICATION_QUEUE_SIZE));
        proof {
            assert(arena@.drop_last() =~= old(arena)@);
        }
        NotificationClient { client, subscribed: false }
    }

    fn subscribe(&mut self, broker: &mut Broker)
        requires
            old(broker).wf(),
        ensures
            final(broker).wf(),
            final(broker)@ == old(broker)@.insert(
                notify_topic(),
                subscribed(old(broker)@, notify_topic()).push(old(self).handle()),
            ),
            final(self).is_subscribed(),
            final(self).handle() == old(self).handle(),
    {
        let topic = Message::notify_topic();
        broker.subscribe(topic.as_str(), &self.client);
        self.subscribed = true;
    }

    /// One tick of the client: subscribes to the notification topic where that
    /// is still to do, empties its mailbox and hands back the texts of the
    /// notifications that it held, oldest first, for the host to show.
    pub fn ui(&mut self, broker: &mut Broker, arena: &mut ClientArena) -> (texts: Vec<String>)
        requires
            old(broker).wf(),
            old(arena).wf(),
        ensures
            final(broker).wf(),
            final(arena).wf(),
            final(self).is_subscribed(),
            final(self).handle() == old(self).handle(),
            final(broker)@ == if old(self).is_subscribed() {
                old(broker)@
            } else {
                old(broker)@.insert(
                    notify_topic(),
                    subscribed(old(broker)@, notify_topic()).push(old(self).handle()),
                )
            },
            final(arena).same_but(old(arena), old(self).handle()),
            final(arena).alive(old(self).handle()) == old(arena).alive(old(self).handle()),
            old(arena).alive(old(self).handle()) ==> {
                &&& views(texts@) == notifications(
                    old(arena).client(old(self).handle()).queue(),
                )
                &&& final(arena).client(old(self).handle()).queue().len() == 0
                &&& final(arena).client(old(self).handle()).same_identity(
                    old(arena).client(old(self).handle()),
                )
            },
            !old(arena).alive(old(self).handle()) ==> texts@.len() == 0 && final(arena)@ == old(
                arena,
            )@,
    {
        if !self.subscribed {
            self.subscribe(broker);
        }
        let mut messages = arena.drain(&self.client);
        let ghost held = messages@;
        let ghost mut done: Seq<Message> = Seq::empty();
        let mut texts: Vec<String> = Vec::new();
        proof {
            assert(done + messages@ =~= held);
            assert(views(texts@) =~= notifications(done));
        }
        while messages.len() > 0
            invariant
                done + messages@ == held,
                views(texts@) == notifications(done),
            decreases messages@.len(),
        {
            let message = messages.pop_front().unwrap();
            proof {
                assert(done.push(message).drop_last() =~= done);
                assert(done.push(message) + messages@ =~= held);
            }
            let ghost shown = texts@;
            match message {
                Message::Notify { text } => {
                    texts.push(text);
                    proof {
                        assert(views(shown.push(text)) =~= views(shown).push(text@));
                    }
                },
                _ => {},
            }
            proof {
                done = done.push(message);
            }
        }
        proof {
            assert(done =~= held);
        }
        texts
    }
}

} // verus!
