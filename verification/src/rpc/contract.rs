//! The vocabulary of the request/response protocol: requests, responses, and
//! the closed sets of commands, results and errors that they carry.

use vstd::prelude::*;

verus! {

/// A correlation id: it ties a response to the request that asked for it.
pub type Id = String;

/// A topic of the broker.
pub type Topic = String;

/// A payload in binary form.
pub type PayloadBytes = Vec<u8>;

/// A payload as JSON text.
pub type PayloadJson = String;

/// The address of a host.
pub type IpAddress = String;

/// A request: a command and the id under which its answer is awaited.
#[derive(Debug, PartialEq, Eq)]
pub struct Message {
    pub id: Id,
    pub command: Command,
}

impl Default for Message {
    fn default() -> (message: Self)
        ensures
            message.id@ == Seq::<char>::empty(),
            message.command == Command::Example,
    {
        Message { id: String::new(), command: Command::Example }
    }
}

/// The answer to the request with the same id.
#[derive(Debug, PartialEq, Eq)]
pub struct Response {
    pub id: Id,
    pub result: RpcResult,
}

impl Default for Response {
    fn default() -> (response: Self)
        ensures
            response.id@ == Seq::<char>::empty(),
            response.result == RpcResult::Success(RpcMessage::Empty),
    {
        Response { id: String::new(), result: RpcResult::Success(RpcMessage::Empty) }
    }
}

/// What a command that succeeded hands back.
#[derive(Debug, PartialEq, Eq)]
#[allow(inconsistent_fields)]
pub enum RpcMessage {
    Empty,
    ClientId { id: Id },
    ConnectionStatus { connected: bool },
}

impl Default for RpcMessage {
    fn default() -> (message: Self)
        ensures
            message == RpcMessage::Empty,
    {
        RpcMessage::Empty
    }
}

/// The commands that a backend executes. The set is closed.
#[derive(Debug, PartialEq, Eq)]
pub enum Command {
    Example,
}

impl Default for Command {
    fn default() -> (command: Self)
        ensures
            command == Command::Example,
    {
        Command::Example
    }
}

/// The outcome of a command.
#[derive(Debug, PartialEq, Eq)]
pub enum RpcResult {
    Success(RpcMessage),
    Error(Error),
}

impl Default for RpcResult {
    fn default() -> (result: Self)
        ensures
            result == RpcResult::Success(RpcMessage::Empty),
    {
        Self::value(RpcMessage::Empty)
    }
}

impl RpcResult {
    /// The result of a command that succeeded with `response`.
    pub fn value(response: RpcMessage) -> (result: Self)
        ensures
            result == RpcResult::Success(response),
    {
        Self::Success(response)
    }
}

/// The ways in which a command fails.
#[derive(Debug, PartialEq, Eq)]
#[allow(inconsistent_fields)]
pub enum Error {
    Empty,
    Timeout,
    UnknownClientId { id: Id },
    UnknownSpawnerId { id: Id },
    UnknownSpawnerApp { id: Id },
    Connection,
    Spawner { error: String },
    RpcResultDeserialization { error: String },
    UnrecognizedMessage,
    CommandSerialization { error: String },
    Subscription { topic: Topic, id: Id, error: String },
    Publish { topic: Topic, id: Id, error: String },
    PublishJson { topic: Topic, id: Id, error: String },
    RequestBridge { id: String, source_address: String, target_address: String, error: String },
    RemoveBridge { id: String, target_address: String, error: String },
}

impl Default for Error {
    fn default() -> (error: Self)
        ensures
            error == Error::Empty,
    {
        Error::Empty
    }
}

impl Clone for Command {
    fn clone(&self) -> (copy: Self)
        ensures
            copy == *self,
    {
        match self {
            Command::Example => Command::Example,
        }
    }
}

impl Clone for RpcMessage {
    fn clone(&self) -> (copy: Self)
        ensures
            copy == *self,
    {
        match self {
            RpcMessage::Empty => RpcMessage::Empty,
            RpcMessage::ClientId { id } => RpcMessage::ClientId { id: id.clone() },
            RpcMessage::ConnectionStatus { connected } => RpcMessage::ConnectionStatus {
                connected: *connected,
            },
        }
    }
}

impl Clone for Error {
    fn clone(&self) -> (copy: Self)
        ensures
            copy == *self,
    {
        match self {
            Error::Empty => Error::Empty,
            Error::Timeout => Error::Timeout,
            Error::UnknownClientId { id } => Error::UnknownClientId { id: id.clone() },
            Error::UnknownSpawnerId { id } => Error::UnknownSpawnerId { id: id.clone() },
            Error::UnknownSpawnerApp { id } => Error::UnknownSpawnerApp { id: id.clone() },
            Error::Connection => Error::Connection,
            Error::Spawner { error } => Error::Spawner { error: error.clone() },
            Error::RpcResultDeserialization { error } => Error::RpcResultDeserialization {
                error: error.clone(),
            },
            Error::UnrecognizedMessage => Error::UnrecognizedMessage,
            Error::CommandSerialization { error } => Error::CommandSerialization {
                error: error.clone(),
            },
            Error::Subscription { topic, id, error } => Error::Subscription {
                topic: topic.clone(),
                id: id.clone(),
                error: error.clone(),
            },
            Error::Publish { topic, id, error } => Error::Publish {
                topic: topic.clone(),
                id: id.clone(),
                error: error.clone(),
            },
            Error::PublishJson { topic, id, error } => Error::PublishJson {
                topic: topic.clone(),
                id: id.clone(),
                error: error.clone(),
            },
            Error::RequestBridge { id, source_address, target_address, error } => {
                Error::RequestBridge {
                    id: id.clone(),
                    source_address: source_address.clone(),
                    target_address: target_address.clone(),
                    error: error.clone(),
                }
            },
            Error::RemoveBridge { id, target_address, error } => Error::RemoveBridge {
                id: id.clone(),
                target_address: target_address.clone(),
                error: error.clone(),
            },
        }
    }
}

impl Clone for RpcResult {
    fn clone(&self) -> (copy: Self)
        ensures
            copy == *self,
    {
        match self {
            RpcResult::Success(message) => RpcResult::Success(message.clone()),
            RpcResult::Error(error) => RpcResult::Error(error.clone()),
        }
    }
}

impl Clone for Message {
    fn clone(&self) -> (copy: Self)
        ensures
            copy == *self,
    {
        Message { id: self.id.clone(), command: self.command.clone() }
    }
}

impl Clone for Response {
    fn clone(&self) -> (copy: Self)
        ensures
            copy == *self,
    {
        Response { id: self.id.clone(), result: self.result.clone() }
    }
}

} // verus!
