//! The editor's file-system client: it serves the file-system command topic.
//! Dialogs and files are the host's; what is asked of them, and where what
//! they gave is published, is decided here.

use crate::broker::arena::ClientHandle;
use crate::broker::broker::{published, subscribed};
use crate::broker::client::Client;
use crate::widget::contract::{
    file_system_command_topic, file_system_result_topic, Broker, ClientArena, Message,
};
use crate::widget::filesystem::{
    FileSystemCommand, FileSystemId, FileSystemMessage, FileSystemResult,
};
use vstd::prelude::*;
use vstd::string::StringExecFns;

verus! {

/// The id of the one who asks.
pub type Id = String;

/// Capacity of the mailbox in which file-system commands are collected.
pub const FILE_COMMAND_QUEUE_SIZE: usize = 100;

/// A file-system command that the host is to carry out for the requester
/// with id `id`.
#[derive(Debug, Clone, PartialEq, Eq)]
pub struct FileSystemRequest {
    pub id: FileSystemId,
    pub command: FileSystemCommand,
}

/// The editor's client on the file-system command topic.
pub struct FileSystemClient {
    client: ClientHandle,
    subscribed: bool,
}

/// The command asks something of the host: to pick a file or a folder, or to
/// save a file.
pub open spec fn asks(command: FileSystemCommand) -> bool {
    !(command is Nothing)
}

/// The requests that the file-system commands among `messages` make of the
/// host, in their order.
pub open spec fn file_requests(messages: Seq<Message>) -> Seq<FileSystemRequest>
    decreases messages.len(),
{
    if messages.len() == 0 {
        Seq::empty()
    } else {
        let before = file_requests(messages.drop_last());
        match messages.last() {
            Message::FileSystemCommand { id, command } => if asks(command) {
                before.push(FileSystemRequest { id, command })
            } else {
                before
            },
            _ => before,
        }
    }
}

impl FileSystemClient {
    /// The handle of the mailbox in which commands are collected.
    pub closed spec fn handle(&self) -> ClientHandle {
        self.client
    }

    /// The command topic has been subscribed to.
    pub closed spec fn is_subscribed(&self) -> bool {
        self.subscribed
    }

    /// A client that has not subscribed yet; its mailbox is made in `arena`.
    pub fn new(arena: &mut ClientArena) -> (client: Self)
        requires
            old(arena).wf(),
        ensures
            final(arena).wf(),
            final(arena)@.len() == old(arena)@.len() + 1,
            final(arena)@.drop_last() == old(arena)@,
            client.handle().index() == old(arena)@.len(),
            final(arena).alive(client.handle()),
            final(arena).client(client.handle()).queue().len() == 0,
            final(arena).client(client.handle()).capacity() == FILE_COMMAND_QUEUE_SIZE,
            !client.is_subscribed(),
    {
        let client = arena.insert(Client::with_ring_buffer_size(FILE_COMMAND_QUEUE_SIZE));
        proof {
            assert(arena@.drop_last() =~= old(arena)@);
        }
        FileSystemClient { client, subscribed: false }
    }

    fn subscribe(&mut self, broker: &mut Broker)
        requires
            old(broker).wf(),
        ensures
            final(broker).wf(),
            final(broker)@ == old(broker)@.insert(
                file_system_command_topic(),
                subscribed(old(broker)@, file_system_command_topic()).push(old(self).handle()),
            ),
            final(self).is_subscribed(),
            final(self).handle() == old(self).handle(),
    {
        let topic = Message::file_system_command_topic();
        broker.subscribe(topic.as_str(), &self.client);
        self.subscribed = true;
    }

    /// One tick of the client: subscribes to the command topic where that is
    /// still to do, empties its mailbox and hands back what the commands that
    /// it held ask of the host, oldest first.
    pub fn update(&mut self, broker: &mut Broker, arena: &mut ClientArena) -> (requests: Vec<
        FileSystemRequest,
    >)
        requires
            old(broker).wf(),
            old(arena).wf(),
        ensures
            final(broker).wf(),
            final(arena).wf(),
            final(self).is_subscribed(),
            final(self).handle() == old(self).handle(),
            final(broker)@ == if old(self).is_subscribed() {
                old(broker)@
            } else {
                old(broker)@.insert(
                    file_system_command_topic(),
                    subscribed(old(broker)@, file_system_command_topic()).push(
                        old(self).handle(),
                    ),
                )
            },
            final(arena).same_but(old(arena), old(self).handle()),
            final(arena).alive(old(self).handle()) == old(arena).alive(old(self).handle()),
            old(arena).alive(old(self).handle()) ==> {
                &&& requests@ == file_requests(old(arena).client(old(self).handle()).queue())
                &&& final(arena).client(old(self).handle()).queue().len() == 0
                &&& final(arena).client(old(self).handle()).same_identity(
                    old(arena).client(old(self).handle()),
                )
            },
            !old(arena).alive(old(self).handle()) ==> requests@.len() == 0 && final(arena)@
                == old(arena)@,
    {
        if !self.subscribed {
            self.subscribe(broker);
        }
        let mut messages = arena.drain(&self.client);
        let ghost held = messages@;
        let ghost mut done: Seq<Message> = Seq::empty();
        let mut requests: Vec<FileSystemRequest> = Vec::new();
        proof {
            assert(done + messages@ =~= held);
        }
        while messages.len() > 0
            invariant
                done + messages@ == held,
                requests@ == file_requests(done),
            decreases messages@.len(),
        {
            let message = messages.pop_front().unwrap();
            proof {
                assert(done.push(message).drop_last() =~= done);
                assert(done.push(message) + messages@ =~= held);
            }
            match message {
                Message::FileSystemCommand { id, command } => {
                    if Self::execute(&command) {
                        requests.push(FileSystemRequest { id, command });
                    }
                },
                _ => {},
            }
            proof {
                done = done.push(message);
            }
        }
        proof {
            assert(done =~= held);
        }
        requests
    }

    /// Whether the command asks something of the host.
    fn execute(command: &FileSystemCommand) -> (asked: bool)
        ensures
            asked == asks(*command),
    {
        match command {
            FileSystemCommand::PickFile { .. } => true,
            FileSystemCommand::SaveFile { .. } => true,
            FileSystemCommand::PickFolder { .. } => true,
            FileSystemCommand::Nothing => false,
        }
    }
}

/// Publishes the file that was picked for the requester with id `id`, under
/// that requester's result topic.
pub fn publish_system_result(
    broker: &mut Broker,
    arena: &mut ClientArena,
    id: &str,
    path: &str,
    bytes: Vec<u8>,
    tag: &str,
)
    requires
        old(broker).wf(),
        old(arena).wf(),
    ensures
        final(broker).wf(),
        final(arena).wf(),
        exists|message: Message| #[trigger]
            published(
                old(broker)@,
                old(arena),
                file_system_result_topic(id@),
                message,
                final(broker)@,
                final(arena),
            ) && is_file_result(message, path@, bytes, tag@),
{
    let topic = Message::file_system_result_topic(id);
    let message = Message::FileSystemResult {
        result: FileSystemResult::Success(
            FileSystemMessage::File {
                path: String::from_str(path),
                bytes,
                tag: String::from_str(tag),
            },
        ),
    };
    proof {
        assert(is_file_result(message, path@, bytes, tag@));
    }
    broker.publish(arena, topic.as_str(), message);
}

/// `message` is the result that hands over the file at `path` with the
/// content `bytes`, marked with `tag`.
pub open spec fn is_file_result(message: Message, path: Seq<char>, bytes: Vec<u8>, tag: Seq<char>) -> bool {
    match message {
        Message::FileSystemResult {
            result: FileSystemResult::Success(
                FileSystemMessage::File { path: file_path, bytes: file_bytes, tag: file_tag },
            ),
        } => file_path@ == path && file_bytes == bytes && file_tag@ == tag,
        _ => false,
    }
}

/// Publishes the folder that was picked for the requester with id `id`, under
/// that requester's result topic.
pub fn publish_folder_result(
    broker: &mut Broker,
    arena: &mut ClientArena,
    id: &str,
    folder_path: &str,
    tag: &str,
)
    requires
        old(broker).wf(),
        old(arena).wf(),
    ensures
        final(broker).wf(),
        final(arena).wf(),
        exists|message: Message| #[trigger]
            published(
                old(broker)@,
                old(arena),
                file_system_result_topic(id@),
                message,
                final(broker)@,
                final(arena),
            ) && is_folder_result(message, folder_path@, tag@),
{
    let topic = Message::file_system_result_topic(id);
    let message = Message::FileSystemResult {
        result: FileSystemResult::Success(
            FileSystemMessage::Folder {
                path: String::from_str(folder_path),
                tag: String::from_str(tag),
            },
        ),
    };
    proof {
        assert(is_folder_result(message, folder_path@, tag@));
    }
    broker.publish(arena, topic.as_str(), message);
}

/// `message` is the result that hands over the folder at `path`, marked with
/// `tag`.
pub open spec fn is_folder_result(message: Message, path: Seq<char>, tag: Seq<char>) -> bool {
    match message {
        Message::FileSystemResult {
            result: FileSystemResult::Success(
                FileSystemMessage::Folder { path: folder_path, tag: folder_tag },
            ),
        } => folder_path@ == path && folder_tag@ == tag,
        _ => false,
    }
}

} // verus!
