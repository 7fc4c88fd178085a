//! Topic-based publish/subscribe: mailboxes, the arena that owns them, and the
//! broker that routes messages to them.

pub mod arena;
pub mod broker;
pub mod client;
pub mod laws;
