//! What can go wrong while an app spec is read or carried out.

use vstd::prelude::*;

verus! {

/// What the parser was looking for where it gave up.
#[derive(Clone, Copy, Debug, PartialEq, Eq)]
pub enum Expected {
    /// One of the words of the language (`app`, `file`, `cd`, ...).
    Keyword,
    /// The `"` that opens or closes a string.
    Quote,
    /// `{`
    OpenBrace,
    /// `}`
    CloseBrace,
    /// `[`
    OpenBracket,
    /// `]`
    CloseBracket,
    /// `->`
    Arrow,
    /// `>>`
    Redirect,
    /// A rule name.
    Name,
    /// The text of a dependency rule, at least one character.
    Block,
    /// Any action.
    Action,
    /// Any dependency check.
    Check,
    /// The end of the text.
    End,
}

/// Where a parse stopped, over mathematical positions.
pub struct Failure {
    pub position: int,
    pub expected: Expected,
}

/// A spec text that does not match the grammar.
#[derive(Clone, Copy, Debug, PartialEq, Eq)]
pub struct ParseError {
    /// Index of the offending character; the length of the input where it ended too early.
    pub position: usize,
    pub expected: Expected,
}

impl View for ParseError {
    type V = Failure;

    open spec fn view(&self) -> Failure {
        Failure { position: self.position as int, expected: self.expected }
    }
}

/// Why carrying out or reading an app spec failed.
#[derive(Debug, PartialEq, Eq)]
pub enum VacuumError {
    /// A filesystem operation failed; the text is the platform's message.
    IoError(String),
    /// The spec text does not match the grammar.
    ParseError(ParseError),
    /// A command could not be started; the text is the platform's message.
    ProcessError(String),
}

} // verus!
