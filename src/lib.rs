//! Real-time notification fan-out for a social feed: a registry of live
//! connections per identity, a subscription table from event keys to
//! connections, the wire frames exchanged with clients, the validation
//! rules applied to user-supplied data, and encrypted expiring tokens.

pub mod lists;
pub mod events;
pub mod tracker;
pub mod registry;
pub mod protocol;
pub mod lifecycle;
pub mod laws;
pub mod models;
pub mod validation;
pub mod token;
