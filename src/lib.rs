//! Escaping of free-form Markdown into the strict wire dialect of a chat
//! messaging service, and the fixed tables of the chat bot built on it.

pub mod markdown;
pub mod bot;
