//! A widget's connection to the editor.

pub mod client;
pub mod connect;
