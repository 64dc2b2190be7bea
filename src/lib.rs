//! A command-dispatch engine for a chat bot: prefix parsing, code-fence
//! extraction, a command registry with permission guards, reply formatting
//! and the synchronisation of bot replies with edits and deletions of the
//! messages that invoked them.

pub mod text;
pub mod error;
pub mod fence;
pub mod format;
pub mod history;
pub mod parse;
pub mod registry;
pub mod dispatch;
pub mod config;
