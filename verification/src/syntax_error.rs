//! Syntax errors: what was missing or misplaced, on which line, and the
//! message that tells each kind of error from the others.

use vstd::prelude::*;

use crate::diagnostics::{error, DiagnosticView, ErrorLog, ErrorLogView};
use crate::lexing::{unexpected_character_message, unterminated_string_message};

verus! {

/// What the parser was looking for when it found something else.
#[derive(Clone, Copy, Debug, PartialEq, Eq, Structural)]
pub enum Expected {
    /// A token that can start an expression.
    Expression,
    /// The `)` that closes a parenthesised expression.
    RightParenAfterExpression,
    /// The `)` that closes an argument list.
    RightParenAfterArguments,
    /// The property name after a `.`.
    PropertyName,
    /// The `.` after `super`.
    DotAfterSuper,
    /// The method name after `super.`.
    SuperclassMethodName,
}

/// A syntax error, with the line of the token it was found at.
#[derive(Clone, Copy, Debug, PartialEq, Eq, Structural)]
pub enum ParseError {
    /// A production did not find the token it requires; `line` is that of
    /// the token found in its place.
    MissingExpectedToken { line: usize, expected: Expected },
    /// The left side of an `=` is neither a variable nor a property;
    /// `line` is that of the `=`.
    InvalidAssignmentTarget { line: usize },
}

/// Mathematical model of a [`ParseError`].
pub enum ParseErrorView {
    MissingExpectedToken { line: nat, expected: Expected },
    InvalidAssignmentTarget { line: nat },
}

impl View for ParseError {
    type V = ParseErrorView;

    open spec fn view(&self) -> ParseErrorView {
        match self {
            ParseError::MissingExpectedToken { line, expected } => {
                ParseErrorView::MissingExpectedToken { line: *line as nat, expected: *expected }
            },
            ParseError::InvalidAssignmentTarget { line } => {
                ParseErrorView::InvalidAssignmentTarget { line: *line as nat }
            },
        }
    }
}

impl Expected {
    /// The message for a missing token of this kind.
    pub open spec fn message_text(self) -> Seq<char> {
        match self {
            Expected::Expression => "Expect expression."@,
            Expected::RightParenAfterExpression => "Expect ')' after expression."@,
            Expected::RightParenAfterArguments => "Expect ')' after arguments."@,
            Expected::PropertyName => "Expect property name after '.'."@,
            Expected::DotAfterSuper => "Expect '.' after 'super'."@,
            Expected::SuperclassMethodName => "Expect superclass method name."@,
        }
    }

    /// The message for a missing token of this kind.
    pub fn message(self) -> (message: &'static str)
        ensures
            message@ == self.message_text(),
    {
        match self {
            Expected::Expression => "Expect expression.",
            Expected::RightParenAfterExpression => "Expect ')' after expression.",
            Expected::RightParenAfterArguments => "Expect ')' after arguments.",
            Expected::PropertyName => "Expect property name after '.'.",
            Expected::DotAfterSuper => "Expect '.' after 'super'.",
            Expected::SuperclassMethodName => "Expect superclass method name.",
        }
    }
}

impl ParseErrorView {
    /// The line the error was found on.
    pub open spec fn line(self) -> nat {
        match self {
            ParseErrorView::MissingExpectedToken { line, .. } => line,
            ParseErrorView::InvalidAssignmentTarget { line } => line,
        }
    }

    /// The message that tells this error from the others.
    pub open spec fn message_text(self) -> Seq<char> {
        match self {
            ParseErrorView::MissingExpectedToken { expected, .. } => expected.message_text(),
            ParseErrorView::InvalidAssignmentTarget { .. } => "Invalid assignment target."@,
        }
    }

    /// Whether two errors are of one kind, whatever their lines.
    pub open spec fn same_kind(self, other: ParseErrorView) -> bool {
        match (self, other) {
            (
                ParseErrorView::MissingExpectedToken { expected: a, .. },
                ParseErrorView::MissingExpectedToken { expected: b, .. },
            ) => a == b,
            (
                ParseErrorView::InvalidAssignmentTarget { .. },
                ParseErrorView::InvalidAssignmentTarget { .. },
            ) => true,
            _ => false,
        }
    }
}

impl ParseError {
    /// The line the error was found on.
    pub fn line(&self) -> (line: usize)
        ensures
            line == self@.line(),
    {
        match self {
            ParseError::MissingExpectedToken { line, .. } => *line,
            ParseError::InvalidAssignmentTarget { line } => *line,
        }
    }

    /// The message that tells this error from the others.
    pub fn message(&self) -> (message: String)
        ensures
            message@ == self@.message_text(),
    {
        match self {
            ParseError::MissingExpectedToken { expected, .. } => expected.message().to_string(),
            ParseError::InvalidAssignmentTarget { .. } => "Invalid assignment target.".to_string(),
        }
    }

    /// Reports this error to `log`, by its line and its message.
    pub fn report(&self, log: &mut ErrorLog)
        ensures
            final(log)@ == (ErrorLogView {
                had_error: true,
                entries: old(log)@.entries.push(
                    DiagnosticView {
                        line: self@.line(),
                        location: Seq::empty(),
                        message: self@.message_text(),
                    },
                ),
            }),
    {
        error(log, self.line(), self.message());
    }
}

/// Messages distinguish: two syntax errors with one message are of one
/// kind, and no syntax error has the message of a lexical error.
pub proof fn lemma_messages_distinguish(a: ParseErrorView, b: ParseErrorView)
    ensures
        a.message_text() == b.message_text() ==> a.same_kind(b),
        a.message_text() != unexpected_character_message(),
        a.message_text() != unterminated_string_message(),
        unexpected_character_message()
            != unterminated_string_message(),
{
    reveal_strlit("Expect expression.");
    reveal_strlit("Expect ')' after expression.");
    reveal_strlit("Expect ')' after arguments.");
    reveal_strlit("Expect property name after '.'.");
    reveal_strlit("Expect '.' after 'super'.");
    reveal_strlit("Expect superclass method name.");
    reveal_strlit("Invalid assignment target.");
    reveal_strlit("Unexpected character.");
    reveal_strlit("Unterminated string.");
    assert(a.message_text().len() != 21 && a.message_text().len() != 20);
    assert(unexpected_character_message().len() == 21);
    assert(unterminated_string_message().len() == 20);
    if a.message_text() == b.message_text() {
        assert(a.message_text().len() == b.message_text().len());
    }
}

} // verus!
