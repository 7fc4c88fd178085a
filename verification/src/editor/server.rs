//! The backend's side of a connection: what it makes of each thing that it
//! reads. Reading, decoding and writing are the host's; the decisions are
//! here.

use crate::rpc::contract::{Command, Id, Message, Response};
use crate::rpc::executor::{interpret, RpcExecutor};
use vstd::prelude::*;

verus! {

/// How long the server waits after a failed read before it reads again, in
/// milliseconds.
pub const RETRY_INTERVAL_MILLIS: u64 = 1000;

/// What one read on a connection came to.
#[derive(Debug, Clone, PartialEq, Eq)]
pub enum Read {
    /// A binary frame that holds a request.
    Request(Message),
    /// A binary frame that holds no request.
    Undecodable,
    /// A message that is no binary frame.
    Ignored,
    /// The read failed, or the stream has ended.
    Failed,
}

/// What the server does next on the connection.
#[derive(Debug, Clone, PartialEq, Eq)]
pub enum Step {
    /// Write the response back as one binary frame, then read again.
    Respond(Response),
    /// Read again.
    Continue,
    /// Wait for so many milliseconds, then read again.
    Retry { millis: u64 },
}

/// The step that answers a read: a request is executed and answered under
/// its own id; a frame without a request and a message that is no frame are
/// passed over; a failed read is tried again after the retry interval. No
/// read ends the connection.
pub open spec fn step_for(read: Read) -> Step {
    match read {
        Read::Request(message) => Step::Respond(
            Response { id: message.id, result: interpret(message.command) },
        ),
        Read::Undecodable => Step::Continue,
        Read::Ignored => Step::Continue,
        Read::Failed => Step::Retry { millis: RETRY_INTERVAL_MILLIS },
    }
}

/// Executes `command` and wraps the result with the id of its request.
pub fn execute_command(id: Id, server: &mut RpcExecutor, command: Command) -> (response: Response)
    ensures
        response == (Response { id, result: interpret(command) }),
{
    let result = server.execute(&id, command);
    Response { id, result }
}

/// Decides what the server does with what it read.
pub fn receive_rpc_messages(server: &mut RpcExecutor, read: Read) -> (step: Step)
    ensures
        step == step_for(read),
{
    match read {
        Read::Request(message) => {
            let Message { id, command } = message;
            Step::Respond(execute_command(id, server, command))
        },
        Read::Undecodable => Step::Continue,
        Read::Ignored => Step::Continue,
        Read::Failed => Step::Retry { millis: RETRY_INTERVAL_MILLIS },
    }
}

/// A response answers under the id of its request, whatever the command.
pub proof fn law_response_keeps_id(message: Message)
    ensures
        step_for(Read::Request(message)) matches Step::Respond(response) && response.id
            == message.id,
{
}

} // verus!
