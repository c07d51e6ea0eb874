//! The conversational agent: messages, the bookkeeping of one exchange with a model,
//! provider-dependent choices, and small helpers around a conversation.

pub mod conversation;
pub mod helpers;
pub mod provider;
pub mod request;
pub mod reply;
