//! The message contract: the closed set of messages that travel over the
//! broker, and the topic that each of them travels under. Publishers and
//! subscribers both take their topics from here.

use crate::broker::arena::ClientHandle as Handle;
use crate::rpc::contract::{Command, Id as RpcId, RpcResult};
use crate::widget::filesystem::{FileSystemCommand, FileSystemId, FileSystemResult};
use vstd::prelude::*;
use vstd::string::StringExecFns;

verus! {

/// The handle of a mailbox of messages.
pub type ClientHandle = Handle;

/// The broker of the editor's messages.
pub type Broker = crate::broker::broker::Broker<Message>;

/// The arena of the mailboxes of the editor's messages.
pub type ClientArena = crate::broker::arena::ClientArena<Message>;

/// A message on the broker.
#[derive(Debug, PartialEq, Eq)]
#[allow(inconsistent_fields)]
pub enum Message {
    Empty,
    RpcCommand { id: RpcId, command: Command },
    RpcResult { result: RpcResult },
    FileSystemCommand { id: FileSystemId, command: FileSystemCommand },
    FileSystemResult { result: FileSystemResult },
    Notify { text: String },
}

impl Default for Message {
    fn default() -> (message: Self)
        ensures
            message == Message::Empty,
    {
        Message::Empty
    }
}

/// The topic of commands for the backend.
pub open spec fn rpc_command_topic() -> Seq<char> {
    "rpc/command"@
}

/// The topic of the result that answers the request with correlation id `id`.
pub open spec fn rpc_result_topic(id: Seq<char>) -> Seq<char> {
    "rpc/"@ + id + "/result"@
}

/// The topic of requests to the file system.
pub open spec fn file_system_command_topic() -> Seq<char> {
    "file/command"@
}

/// The topic of the file-system result for the requester with id `id`.
pub open spec fn file_system_result_topic(id: Seq<char>) -> Seq<char> {
    "file/"@ + id + "/result"@
}

/// The topic of notifications.
pub open spec fn notify_topic() -> Seq<char> {
    "notify"@
}

impl Clone for Message {
    fn clone(&self) -> (copy: Self)
        ensures
            self.same(&copy),
    {
        match self {
            Message::Empty => Message::Empty,
            Message::RpcCommand { id, command } => Message::RpcCommand {
                id: id.clone(),
                command: command.clone(),
            },
            Message::RpcResult { result } => Message::RpcResult { result: result.clone() },
            Message::FileSystemCommand { id, command } => Message::FileSystemCommand {
                id: id.clone(),
                command: command.clone(),
            },
            Message::FileSystemResult { result } => Message::FileSystemResult {
                result: result.clone(),
            },
            Message::Notify { text } => Message::Notify { text: text.clone() },
        }
    }
}

/// What a mailbox receives is what was published: a clone of a message says
/// the same as the message.
pub proof fn law_clone_says_the_same(message: Message, copy: Message)
    requires
        cloned(message, copy),
    ensures
        message.same(&copy),
        message is RpcCommand || message is RpcResult || message is Notify || message is Empty
            ==> copy == message,
{
    message.lemma_same_is_reflexive();
}

impl Message {
    /// The two messages say the same: the same kind with the same content.
    /// For all but the file-system messages this is equality; those may hold
    /// their bytes and extensions in different buffers.
    pub open spec fn same(&self, other: &Message) -> bool {
        match (*self, *other) {
            (
                Message::FileSystemCommand { id, command },
                Message::FileSystemCommand { id: other_id, command: other_command },
            ) => id@ == other_id@ && command.same(&other_command),
            (
                Message::FileSystemResult { result },
                Message::FileSystemResult { result: other_result },
            ) => result.same(&other_result),
            (Message::FileSystemCommand { .. }, _) => false,
            (Message::FileSystemResult { .. }, _) => false,
            _ => *self == *other,
        }
    }

    /// Every message says the same as itself.
    pub proof fn lemma_same_is_reflexive(&self)
        ensures
            self.same(self),
    {
    }

    /// The topic that the message travels under. A result carries no id of its
    /// own: it travels under the topic of the correlation id `id` that it
    /// answers. The other messages do not look at `id`.
    pub open spec fn spec_topic(&self, id: Seq<char>) -> Seq<char> {
        match self {
            Message::Empty => Seq::<char>::empty(),
            Message::RpcCommand { .. } => rpc_command_topic(),
            Message::RpcResult { .. } => rpc_result_topic(id),
            Message::FileSystemCommand { .. } => file_system_command_topic(),
            Message::FileSystemResult { .. } => file_system_result_topic(id),
            Message::Notify { .. } => notify_topic(),
        }
    }

    /// The topic of the empty message: none.
    pub fn empty_topic() -> (topic: String)
        ensures
            topic@ == Seq::<char>::empty(),
    {
        String::new()
    }

    /// The topic of commands for the backend.
    pub fn rpc_command_topic() -> (topic: String)
        ensures
            topic@ == rpc_command_topic(),
    {
        String::from_str("rpc/command")
    }

    /// The topic of the result that answers the request with correlation id
    /// `id`.
    pub fn rpc_result_topic(id: &str) -> (topic: String)
        ensures
            topic@ == rpc_result_topic(id@),
    {
        let mut topic = String::from_str("rpc/");
        topic.append(id);
        topic.append("/result");
        topic
    }

    /// The topic of requests to the file system.
    pub fn file_system_command_topic() -> (topic: String)
        ensures
            topic@ == file_system_command_topic(),
    {
        String::from_str("file/command")
    }

    /// The topic of the file-system result for the requester with id `id`.
    pub fn file_system_result_topic(id: &str) -> (topic: String)
        ensures
            topic@ == file_system_result_topic(id@),
    {
        let mut topic = String::from_str("file/");
        topic.append(id);
        topic.append("/result");
        topic
    }

    /// The topic of notifications.
    pub fn notify_topic() -> (topic: String)
        ensures
            topic@ == notify_topic(),
    {
        String::from_str("notify")
    }

    /// The topic that the message travels under; see `spec_topic`.
    pub fn topic(&self, id: &str) -> (topic: String)
        ensures
            topic@ == self.spec_topic(id@),
    {
        match self {
            Message::Empty => Self::empty_topic(),
            Message::RpcCommand { .. } => Self::rpc_command_topic(),
            Message::RpcResult { .. } => Self::rpc_result_topic(id),
            Message::FileSystemCommand { .. } => Self::file_system_command_topic(),
            Message::FileSystemResult { .. } => Self::file_system_result_topic(id),
            Message::Notify { .. } => Self::notify_topic(),
        }
    }
}

/// Result topics keep requests apart: two correlation ids share a result
/// topic only where they are the same id.
pub proof fn law_result_topics_tell_ids_apart(a: Seq<char>, b: Seq<char>)
    ensures
        rpc_result_topic(a) == rpc_result_topic(b) <==> a == b,
        file_system_result_topic(a) == file_system_result_topic(b) <==> a == b,
{
    reveal_strlit("rpc/");
    reveal_strlit("file/");
    reveal_strlit("/result");
    if rpc_result_topic(a) == rpc_result_topic(b) {
        assert(rpc_result_topic(a).len() == 4 + a.len() + 7);
        assert(rpc_result_topic(b).len() == 4 + b.len() + 7);
        assert(a =~= rpc_result_topic(a).subrange(4, 4 + a.len() as int));
        assert(b =~= rpc_result_topic(b).subrange(4, 4 + b.len() as int));
    }
    if file_system_result_topic(a) == file_system_result_topic(b) {
        assert(file_system_result_topic(a).len() == 5 + a.len() + 7);
        assert(file_system_result_topic(b).len() == 5 + b.len() + 7);
        assert(a =~= file_system_result_topic(a).subrange(5, 5 + a.len() as int));
        assert(b =~= file_system_result_topic(b).subrange(5, 5 + b.len() as int));
    }
}

/// No result topic is a broadcast topic, whatever the id, and the result
/// topics of the two protocols never meet.
pub proof fn law_result_topics_are_their_own(a: Seq<char>, b: Seq<char>)
    ensures
        rpc_result_topic(a) != rpc_command_topic(),
        rpc_result_topic(a) != file_system_command_topic(),
        rpc_result_topic(a) != notify_topic(),
        rpc_result_topic(a) != file_system_result_topic(b),
        file_system_result_topic(a) != rpc_command_topic(),
        file_system_result_topic(a) != file_system_command_topic(),
        file_system_result_topic(a) != notify_topic(),
        rpc_command_topic() != file_system_command_topic(),
        rpc_command_topic() != notify_topic(),
        file_system_command_topic() != notify_topic(),
{
    reveal_strlit("rpc/");
    reveal_strlit("file/");
    reveal_strlit("/result");
    reveal_strlit("rpc/command");
    reveal_strlit("file/command");
    reveal_strlit("notify");
    let rpc = rpc_result_topic(a);
    let file = file_system_result_topic(a);
    assert(rpc[0] == 'r');
    assert(rpc[rpc.len() - 1] == 't');
    assert(file[0] == 'f');
    assert(file[file.len() - 1] == 't');
    assert(file_system_result_topic(b)[0] == 'f');
    assert(rpc_command_topic()[0] == 'r');
    assert(rpc_command_topic()[10] == 'd');
    assert(file_system_command_topic()[0] == 'f');
    assert(file_system_command_topic()[11] == 'd');
    assert(notify_topic()[0] == 'n');
}

} // verus!
