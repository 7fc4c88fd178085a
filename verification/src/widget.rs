//! What widgets and the editor say to each other over the broker.

pub mod contract;
pub mod filesystem;
