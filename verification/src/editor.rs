//! The editor's side of the messaging: the clients that serve the broker's
//! command topics, and the backend's answer to a request.

pub mod app;
pub mod filesystem;
pub mod notification;
pub mod rpc;
pub mod server;
