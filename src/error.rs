//! The errors that a command can end in, and the text shown for each.
use vstd::prelude::*;
use crate::text::chars_of;

verus! {

/// Why a command produced no regular output.
#[derive(Debug, Clone, PartialEq, Eq)]
pub enum BotError {
    /// The body holds no code block where one was needed.
    MissingCodeblock,
    /// A crate search came back empty.
    NoCratesFound,
    /// The invoking user may not run the command.
    MissingPermissions,
    /// A failure that one command defines, with the text to show.
    DomainSpecific(Vec<char>),
    /// Any other failure, with its cause; shown with a generic text.
    Unknown(Vec<char>),
}

pub open spec fn missing_codeblock_text() -> Seq<char> {
    "Missing code block. Please use the following markdown:\n\\`code here\\`\nor\n\\`\\`\\`rust\ncode here\n\\`\\`\\`"@
}

pub open spec fn no_crates_text() -> Seq<char> {
    "No crates found"@
}

pub open spec fn missing_permissions_text() -> Seq<char> {
    "You do not have the permissions to run this command"@
}

pub open spec fn unknown_text() -> Seq<char> {
    "An unexpected error occurred while running this command"@
}

impl BotError {
    /// The user-facing text of the error.
    pub open spec fn text(&self) -> Seq<char> {
        match self {
            BotError::MissingCodeblock => missing_codeblock_text(),
            BotError::NoCratesFound => no_crates_text(),
            BotError::MissingPermissions => missing_permissions_text(),
            BotError::DomainSpecific(m) => m@,
            BotError::Unknown(_) => unknown_text(),
        }
    }

    /// Renders the error as the text of a reply.
    pub fn render(&self) -> (r: Vec<char>)
        ensures
            r@ == self.text(),
    {
        match self {
            BotError::MissingCodeblock => chars_of(
                "Missing code block. Please use the following markdown:\n\\`code here\\`\nor\n\\`\\`\\`rust\ncode here\n\\`\\`\\`",
            ),
            BotError::NoCratesFound => chars_of("No crates found"),
            BotError::MissingPermissions => chars_of(
                "You do not have the permissions to run this command",
            ),
            BotError::DomainSpecific(m) => m.clone(),
            BotError::Unknown(_) => chars_of(
                "An unexpected error occurred while running this command",
            ),
        }
    }
}

} // verus!
