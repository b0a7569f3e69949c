//! Decision logic for agent-to-agent link channels: channel identifiers,
//! request validation, message paging and filtering, send and acknowledgment
//! plans, event filtering for subscribers, and unread-message notifications.

pub mod acknowledge;
pub mod channel;
pub mod events;
pub mod links;
pub mod messages;
pub mod notify;
pub mod send;
pub mod text;
pub mod validation;
