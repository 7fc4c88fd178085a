//! A widget's client: a mailbox of its own, subscribed to the result topics
//! of the widget's correlation id, and the commands that the widget publishes
//! under that id.

use crate::broker::arena::ClientHandle;
use crate::broker::broker::{published, subscribed};
use crate::broker::client::{
    fresh_id, is_copy_of_oldest, is_random_id, oldest, without_oldest, Client,
};
use crate::rpc::contract::{Command, Id, RpcMessage, RpcResult};
use crate::widget::contract::{
    file_system_command_topic, file_system_result_topic, notify_topic, rpc_command_topic,
    rpc_result_topic, Broker, ClientArena, Message,
};
use crate::widget::filesystem::{
    views, FileSystemCommand, FileSystemMessage, FileSystemResult,
};
use vstd::prelude::*;
use vstd::string::StringExecFns;

verus! {

/// The text of the identifier with the bits `id`, as `uuid` writes it.
pub uninterp spec fn hyphenated(id: u128) -> Seq<char>;

/// Writes the identifier with the bits `id` as text: `uuid::Uuid::from_u128`
/// and its `to_string`, which gives the hyphenated lower-case form. The text
/// depends on the bits alone and is 36 characters long.
#[verifier::external_body]
fn hyphenate(id: u128) -> (text: String)
    ensures
        text@ == hyphenated(id),
        text@.len() == 36,
{
    uuid::Uuid::from_u128(id).to_string()
}

/// The client of one widget.
pub struct WidgetClient {
    frontend_id: Id,
    client_id: Option<Id>,
    subscribed: bool,
    handle: ClientHandle,
}

/// The mailbox behind `handle` holds what it held but for its oldest message,
/// and every other mailbox holds what it held.
pub open spec fn took_oldest(arena: &ClientArena, after: &ClientArena, handle: ClientHandle) -> bool {
    &&& after.same_but(arena, handle)
    &&& after.alive(handle)
    &&& after.client(handle).queue() == without_oldest(arena.client(handle).queue())
    &&& after.client(handle).same_identity(arena.client(handle))
}

/// The oldest message of the mailbox behind `handle`; none where the mailbox
/// is empty or gone.
pub open spec fn front(arena: &ClientArena, handle: ClientHandle) -> Option<Message> {
    if arena.alive(handle) {
        oldest(arena.client(handle).queue())
    } else {
        None
    }
}

impl WidgetClient {
    /// The correlation id under which the widget asks and is answered.
    pub closed spec fn spec_frontend_id(&self) -> Seq<char> {
        self.frontend_id@
    }

    /// The id that the backend gave the widget, once it has one.
    pub closed spec fn spec_id(&self) -> Option<Id> {
        self.client_id
    }

    /// The result topics have been subscribed to.
    pub closed spec fn is_subscribed(&self) -> bool {
        self.subscribed
    }

    /// The handle of the widget's mailbox.
    pub closed spec fn handle(&self) -> ClientHandle {
        self.handle
    }

    /// What does not change once the client is made is the same in both.
    pub open spec fn same_identity(&self, other: &WidgetClient) -> bool {
        self.spec_frontend_id() == other.spec_frontend_id() && self.handle() == other.handle()
    }

    /// A client with a fresh correlation id and no id from the backend; its
    /// mailbox is made in `arena`.
    pub fn new(arena: &mut ClientArena) -> (client: Self)
        requires
            old(arena).wf(),
        ensures
            final(arena).wf(),
            final(arena)@.len() == old(arena)@.len() + 1,
            final(arena)@.drop_last() == old(arena)@,
            client.handle().index() == old(arena)@.len(),
            final(arena).alive(client.handle()),
            final(arena).client(client.handle()).queue().len() == 0,
            client.spec_id() is None,
            !client.is_subscribed(),
            client.spec_frontend_id().len() == 36,
            exists|id: u128|
                is_random_id(id) && client.spec_frontend_id() == #[trigger] hyphenated(id),
    {
        let handle = arena.insert(Client::new());
        proof {
            assert(arena@.drop_last() =~= old(arena)@);
        }
        let id = fresh_id();
        WidgetClient { handle, frontend_id: hyphenate(id), client_id: None, subscribed: false }
    }

    /// The correlation id under which the widget asks and is answered.
    pub fn frontend_id(&self) -> (id: &str)
        ensures
            id@ == self.spec_frontend_id(),
    {
        self.frontend_id.as_str()
    }

    /// The table once the widget listens for its results.
    pub open spec fn listening(&self, table: Map<Seq<char>, Seq<ClientHandle>>) -> Map<
        Seq<char>,
        Seq<ClientHandle>,
    > {
        if self.is_subscribed() {
            table
        } else {
            let rpc = rpc_result_topic(self.spec_frontend_id());
            let file = file_system_result_topic(self.spec_frontend_id());
            let first = table.insert(rpc, subscribed(table, rpc).push(self.handle()));
            first.insert(file, subscribed(first, file).push(self.handle()))
        }
    }

    /// One tick of the client: subscribes to the two result topics of its
    /// correlation id where that is still to do, and takes the id that the
    /// backend gave it where the oldest message in its mailbox brings one.
    /// The mailbox keeps the message.
    pub fn update(&mut self, broker: &mut Broker, arena: &ClientArena)
        requires
            old(broker).wf(),
        ensures
            final(broker).wf(),
            final(broker)@ == old(self).listening(old(broker)@),
            final(self).is_subscribed(),
            final(self).same_identity(old(self)),
            match front(arena, old(self).handle()) {
                Some(
                    Message::RpcResult { result: RpcResult::Success(RpcMessage::ClientId { id }) },
                ) => final(self).spec_id() matches Some(given) && given@ == id@,
                _ => final(self).spec_id() == old(self).spec_id(),
            },
    {
        if !self.subscribed {
            self.create_subscriptions(broker);
        }
        match arena.get(&self.handle) {
            Some(client) => {
                let queue = client.event_queue();
                if queue.len() > 0 {
                    match &queue[0] {
                        Message::RpcResult {
                            result: RpcResult::Success(RpcMessage::ClientId { id }),
                        } => {
                            self.client_id = Some(id.clone());
                        },
                        _ => {},
                    }
                }
            },
            None => {},
        }
    }

    fn create_subscriptions(&mut self, broker: &mut Broker)
        requires
            old(broker).wf(),
            !old(self).is_subscribed(),
        ensures
            final(broker).wf(),
            final(broker)@ == old(self).listening(old(broker)@),
            final(self).is_subscribed(),
            final(self).same_identity(old(self)),
            final(self).spec_id() == old(self).spec_id(),
    {
        let rpc = Message::rpc_result_topic(self.frontend_id.as_str());
        self.subscribe_to_topic(rpc.as_str(), broker);
        let file = Message::file_system_result_topic(self.frontend_id.as_str());
        self.subscribe_to_topic(file.as_str(), broker);
        self.subscribed = true;
    }

    fn subscribe_to_topic(&mut self, topic: &str, broker: &mut Broker)
        requires
            old(broker).wf(),
        ensures
            final(broker).wf(),
            final(broker)@ == old(broker)@.insert(
                topic@,
                subscribed(old(broker)@, topic@).push(old(self).handle()),
            ),
            *final(self) == *old(self),
    {
        broker.subscribe(topic, &self.handle);
    }

    /// The id that the backend gave the widget, once it has one.
    pub fn id(&self) -> (id: Option<&String>)
        ensures
            id == match self.spec_id() {
                Some(given) => Some(&given),
                None => None,
            },
    {
        self.client_id.as_ref()
    }

    /// Takes the oldest message out of the widget's mailbox.
    pub fn next_message(&mut self, arena: &mut ClientArena) -> (message: Option<Message>)
        requires
            old(arena).wf(),
        ensures
            final(arena).wf(),
            *final(self) == *old(self),
            message == front(old(arena), old(self).handle()),
            message is Some ==> took_oldest(old(arena), final(arena), old(self).handle()),
            message is None ==> final(arena)@ == old(arena)@,
    {
        arena.next_message(&self.handle)
    }

    /// A copy of the oldest message in the widget's mailbox.
    pub fn peek_message(&mut self, arena: &ClientArena) -> (message: Option<Message>)
        ensures
            *final(self) == *old(self),
            !arena.alive(old(self).handle()) ==> message is None,
            arena.alive(old(self).handle()) ==> is_copy_of_oldest(
                arena.client(old(self).handle()).queue(),
                message,
            ),
    {
        arena.peek_message(&self.handle)
    }

    /// Takes the oldest message out of the mailbox where it is the value of an
    /// RPC command that succeeded, and hands back the value. Any other message
    /// stays where it is.
    pub fn next_rpc_message(&mut self, arena: &mut ClientArena) -> (value: Option<RpcMessage>)
        requires
            old(arena).wf(),
        ensures
            final(arena).wf(),
            *final(self) == *old(self),
            match front(old(arena), old(self).handle()) {
                Some(Message::RpcResult { result: RpcResult::Success(held) }) => {
                    &&& value == Some(held)
                    &&& took_oldest(old(arena), final(arena), old(self).handle())
                },
                _ => value is None && final(arena)@ == old(arena)@,
            },
    {
        let matches = match arena.get(&self.handle) {
            Some(client) => {
                let queue = client.event_queue();
                if queue.len() > 0 {
                    match &queue[0] {
                        Message::RpcResult { result: RpcResult::Success(_) } => true,
                        _ => false,
                    }
                } else {
                    false
                }
            },
            None => false,
        };
        if matches {
            match arena.next_message(&self.handle) {
                Some(Message::RpcResult { result: RpcResult::Success(value) }) => Some(value),
                _ => None,
            }
        } else {
            None
        }
    }

    /// Takes the oldest message out of the mailbox where it is the value of a
    /// file-system request that succeeded, and hands back the value. Any other
    /// message stays where it is.
    pub fn next_filesystem_message(&mut self, arena: &mut ClientArena) -> (value: Option<
        FileSystemMessage,
    >)
        requires
            old(arena).wf(),
        ensures
            final(arena).wf(),
            *final(self) == *old(self),
            match front(old(arena), old(self).handle()) {
                Some(Message::FileSystemResult { result: FileSystemResult::Success(held) }) => {
                    &&& value == Some(held)
                    &&& took_oldest(old(arena), final(arena), old(self).handle())
                },
                _ => value is None && final(arena)@ == old(arena)@,
            },
    {
        let matches = match arena.get(&self.handle) {
            Some(client) => {
                let queue = client.event_queue();
                if queue.len() > 0 {
                    match &queue[0] {
                        Message::FileSystemResult { result: FileSystemResult::Success(_) } => true,
                        _ => false,
                    }
                } else {
                    false
                }
            },
            None => false,
        };
        if matches {
            match arena.next_message(&self.handle) {
                Some(Message::FileSystemResult { result: FileSystemResult::Success(value) }) => Some(
                    value,
                ),
                _ => None,
            }
        } else {
            None
        }
    }

    /// Publishes a notification with the text `text`.
    pub fn notify(&self, broker: &mut Broker, arena: &mut ClientArena, text: &str)
        requires
            old(broker).wf(),
            old(arena).wf(),
        ensures
            final(broker).wf(),
            final(arena).wf(),
            exists|message: Message| #[trigger]
                published(
                    old(broker)@,
                    old(arena),
                    notify_topic(),
                    message,
                    final(broker)@,
                    final(arena),
                ) && (message matches Message::Notify { text: sent } && sent@ == text@),
    {
        let message = Message::Notify { text: String::from_str(text) };
        let topic = Message::notify_topic();
        broker.publish(arena, topic.as_str(), message);
    }

    /// Asks the editor to let the user pick a file with one of `extensions`.
    pub fn pick_file(
        &self,
        broker: &mut Broker,
        arena: &mut ClientArena,
        filter_name: &str,
        extensions: &[&str],
        tag: &str,
    )
        requires
            old(broker).wf(),
            old(arena).wf(),
        ensures
            final(broker).wf(),
            final(arena).wf(),
            exists|message: Message| #[trigger]
                published(
                    old(broker)@,
                    old(arena),
                    file_system_command_topic(),
                    message,
                    final(broker)@,
                    final(arena),
                ) && (message matches Message::FileSystemCommand {
                    id,
                    command: FileSystemCommand::PickFile {
                        tag: sent_tag,
                        filter_name: sent_filter,
                        extensions: sent_extensions,
                    },
                } && id@ == self.spec_frontend_id() && sent_tag@ == tag@ && sent_filter@
                    == filter_name@ && views(sent_extensions@) == extensions@.map_values(
                    |text: &str| text@,
                )),
    {
        let mut owned: Vec<String> = Vec::new();
        let mut i: usize = 0;
        while i < extensions.len()
            invariant
                i <= extensions@.len(),
                owned@.len() == i,
                forall|j: int| 0 <= j < i ==> (#[trigger] owned@[j])@ == extensions@[j]@,
            decreases extensions@.len() - i,
        {
            owned.push(String::from_str(extensions[i]));
            i += 1;
        }
        proof {
            assert(views(owned@) =~= extensions@.map_values(|text: &str| text@));
        }
        self.publish_file_command(
            broker,
            arena,
            FileSystemCommand::PickFile {
                tag: String::from_str(tag),
                filter_name: String::from_str(filter_name),
                extensions: owned,
            },
        );
    }

    /// Asks the editor to let the user pick a folder.
    pub fn pick_directory(&self, broker: &mut Broker, arena: &mut ClientArena, tag: &str)
        requires
            old(broker).wf(),
            old(arena).wf(),
        ensures
            final(broker).wf(),
            final(arena).wf(),
            exists|message: Message| #[trigger]
                published(
                    old(broker)@,
                    old(arena),
                    file_system_command_topic(),
                    message,
                    final(broker)@,
                    final(arena),
                ) && (message matches Message::FileSystemCommand {
                    id,
                    command: FileSystemCommand::PickFolder { tag: sent_tag },
                } && id@ == self.spec_frontend_id() && sent_tag@ == tag@),
    {
        self.publish_file_command(
            broker,
            arena,
            FileSystemCommand::PickFolder { tag: String::from_str(tag) },
        );
    }

    /// Asks the editor to save `bytes` to a file of the user's choice.
    pub fn save_file(&self, broker: &mut Broker, arena: &mut ClientArena, bytes: Vec<u8>)
        requires
            old(broker).wf(),
            old(arena).wf(),
        ensures
            final(broker).wf(),
            final(arena).wf(),
            exists|message: Message| #[trigger]
                published(
                    old(broker)@,
                    old(arena),
                    file_system_command_topic(),
                    message,
                    final(broker)@,
                    final(arena),
                ) && (message matches Message::FileSystemCommand { id, command } && id@
                    == self.spec_frontend_id() && command == (FileSystemCommand::SaveFile { bytes })),
    {
        self.publish_file_command(broker, arena, FileSystemCommand::SaveFile { bytes });
    }

    /// The backend has given the widget an id.
    pub fn has_connected(&self) -> (connected: bool)
        ensures
            connected == (self.spec_id() is Some),
    {
        self.client_id.is_some()
    }

    /// Publishes `command` for the backend under the widget's correlation id.
    pub fn publish_rpc_command(&self, broker: &mut Broker, arena: &mut ClientArena, command: Command)
        requires
            old(broker).wf(),
            old(arena).wf(),
        ensures
            final(broker).wf(),
            final(arena).wf(),
            exists|message: Message| #[trigger]
                published(
                    old(broker)@,
                    old(arena),
                    rpc_command_topic(),
                    message,
                    final(broker)@,
                    final(arena),
                ) && (message matches Message::RpcCommand { id, command: sent } && id@
                    == self.spec_frontend_id() && sent == command),
    {
        let message = Message::RpcCommand { id: self.frontend_id.clone(), command };
        let topic = Message::rpc_command_topic();
        broker.publish(arena, topic.as_str(), message);
    }

    /// Publishes `command` for the editor's file-system client under the
    /// widget's correlation id.
    pub fn publish_file_command(
        &self,
        broker: &mut Broker,
        arena: &mut ClientArena,
        command: FileSystemCommand,
    )
        requires
            old(broker).wf(),
            old(arena).wf(),
        ensures
            final(broker).wf(),
            final(arena).wf(),
            exists|message: Message| #[trigger]
                published(
                    old(broker)@,
                    old(arena),
                    file_system_command_topic(),
                    message,
                    final(broker)@,
                    final(arena),
                ) && (message matches Message::FileSystemCommand { id, command: sent } && id@
                    == self.spec_frontend_id() && sent == command),
    {
        let message = Message::FileSystemCommand { id: self.frontend_id.clone(), command };
        let topic = Message::file_system_command_topic();
        broker.publish(arena, topic.as_str(), message);
    }
}

} // verus!
