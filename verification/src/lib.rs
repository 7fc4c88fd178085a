//! Messaging core of the editor: bounded mailboxes, a topic broker that fans
//! messages out to them, the message contracts that name the topics, and the
//! request/response protocol that carries commands to a backend and routes
//! each answer back to the one mailbox that waits for it.

pub mod broker;
pub mod code_editor;
pub mod connection;
pub mod editor;
pub mod rpc;
pub mod widget;
