//! What the parser reports when it gives up on an expression.

use vstd::prelude::*;

verus! {

/// Why an expression was rejected. Either way the error carries a message for
/// the user that names what was expected and what was found.
#[derive(Debug, PartialEq)]
pub enum ParseError {
    /// The text is no expression: an operand is missing, or a list of
    /// arguments is empty.
    UnableToParse(String),
    /// A token that the scanner or the grammar cannot take stands in the
    /// text: an unknown character, the wrong closing bracket, the wrong
    /// separator, or no operator where one is due.
    InvalidOperator(String),
}

/// The model of a [`ParseError`]: its kind, and its message as a sequence of
/// characters.
pub enum ParseErrorView {
    UnableToParse(Seq<char>),
    InvalidOperator(Seq<char>),
}

impl View for ParseError {
    type V = ParseErrorView;

    open spec fn view(&self) -> ParseErrorView {
        match self {
            ParseError::UnableToParse(message) => ParseErrorView::UnableToParse(message@),
            ParseError::InvalidOperator(message) => ParseErrorView::InvalidOperator(message@),
        }
    }
}

impl ParseErrorView {
    /// The message for the user.
    pub open spec fn message(self) -> Seq<char> {
        match self {
            ParseErrorView::UnableToParse(message) => message,
            ParseErrorView::InvalidOperator(message) => message,
        }
    }
}

impl ParseError {
    /// The message for the user, introduced as an error of evaluation.
    pub fn to_string(&self) -> (text: String)
        ensures
            text@ == "Error in evaluating "@ + self@.message(),
    {
        let mut text = String::from_str("Error in evaluating ");
        match self {
            ParseError::UnableToParse(message) => text.append(message.as_str()),
            ParseError::InvalidOperator(message) => text.append(message.as_str()),
        }
        text
    }
}

} // verus!
