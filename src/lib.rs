//! Verified core of the message-forwarding relay: virtual channel ids and
//! their room names, the registry of active virtual channels, the decisions
//! of the relay's operations, and the permission and error rules around them.

pub mod ids;
pub mod registry;
pub mod relay;
pub mod error;
pub mod permissions;
pub mod claims;
pub mod models;
pub mod records;
