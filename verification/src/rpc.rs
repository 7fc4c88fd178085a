//! Request/response protocol between the editor and its backend.

pub mod client;
pub mod contract;
pub mod executor;
