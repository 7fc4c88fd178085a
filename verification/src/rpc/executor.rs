//! The local strategy: commands are executed in-process, at once.

use crate::rpc::contract::{Command, Id, RpcMessage, RpcResult};
use vstd::prelude::*;

verus! {

/// What a command results in. Every command has exactly one result; the id
/// of the request has no part in it.
pub open spec fn interpret(command: Command) -> RpcResult {
    match command {
        Command::Example => RpcResult::Success(RpcMessage::Empty),
    }
}

/// The in-process command interpreter.
#[derive(Default)]
pub struct RpcExecutor;

impl RpcExecutor {
    /// Executes `command` and hands back its result.
    pub fn execute(&mut self, _id: &Id, command: Command) -> (result: RpcResult)
        ensures
            result == interpret(command),
    {
        match command {
            Command::Example => RpcResult::default(),
        }
    }
}

} // verus!
