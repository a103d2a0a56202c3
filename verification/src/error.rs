use vstd::prelude::*;
use crate::token::{Token, TokenView};

verus! {

/// Why a parse failed.
#[derive(Debug, PartialEq)]
pub enum ParseError {
    /// The query holds no token.
    EmptyQueryString,
    /// A token stands where it cannot.
    InvalidToken(Token),
    /// One token was expected and another found.
    InvalidNextToken(Token, Token),
    /// The tokens ended where more were needed.
    NoMoreTokens,
    /// A number literal is neither an integer nor a floating-point number.
    InvalidNumber(String),
    /// An operator that no expression node stands for.
    OperandTokenNotImplemented(Token),
    /// The stacks of the expression engine do not reduce to one operand.
    OperandCompactionIssue(String),
    /// A construct that the grammar does not cover.
    NotImplemented(String),
}

/// A parse error with its texts as sequences of characters.
pub ghost enum ParseErrorView {
    EmptyQueryString,
    InvalidToken(TokenView),
    InvalidNextToken(TokenView, TokenView),
    NoMoreTokens,
    InvalidNumber(Seq<char>),
    OperandTokenNotImplemented(TokenView),
    OperandCompactionIssue(Seq<char>),
    NotImplemented(Seq<char>),
}

impl View for ParseError {
    type V = ParseErrorView;

    open spec fn view(&self) -> ParseErrorView {
        match *self {
            ParseError::EmptyQueryString => ParseErrorView::EmptyQueryString,
            ParseError::InvalidToken(t) => ParseErrorView::InvalidToken(t@),
            ParseError::InvalidNextToken(e, t) => ParseErrorView::InvalidNextToken(e@, t@),
            ParseError::NoMoreTokens => ParseErrorView::NoMoreTokens,
            ParseError::InvalidNumber(s) => ParseErrorView::InvalidNumber(s@),
            ParseError::OperandTokenNotImplemented(t) => ParseErrorView::OperandTokenNotImplemented(
                t@,
            ),
            ParseError::OperandCompactionIssue(s) => ParseErrorView::OperandCompactionIssue(s@),
            ParseError::NotImplemented(s) => ParseErrorView::NotImplemented(s@),
        }
    }
}

/// The reason given when a parenthesis is left on the operator stack.
pub open spec fn unbalanced_text() -> Seq<char> {
    "unexpected parenthesis on final compaction"@
}

/// The reason given when the stacks do not end with one operand alone.
pub open spec fn leftover_text() -> Seq<char> {
    "expected to have 1 operand and no operators"@
}

/// The reason given for a table expression that is neither a name nor a
/// nested statement.
pub open spec fn table_text() -> Seq<char> {
    "table expression type not implemented"@
}

/// The reason given for a token that starts no term.
pub open spec fn term_text() -> Seq<char> {
    "match_term"@
}

/// The reason given for a token that neither continues nor closes an
/// expression.
pub open spec fn operator_text() -> Seq<char> {
    "expected an expression operator or right parenthesis"@
}

impl ParseError {
    /// A description of the error.
    pub fn to_string(&self) -> (s: String)
        ensures
            self is EmptyQueryString ==> s@ == "empty query string"@,
            self is NoMoreTokens ==> s@ == "no more tokens"@,
            self is InvalidToken ==> s@ == "invalid next token"@,
            self is InvalidNextToken ==> s@ == "invalid next token, other than expected"@,
            self is InvalidNumber ==> s@ == "unable to parse number: "@ + self->InvalidNumber_0@,
            self is OperandTokenNotImplemented ==> s@ == "operand not implemented"@,
            self is OperandCompactionIssue ==> s@ == "operand compaction issue: "@
                + self->OperandCompactionIssue_0@,
            self is NotImplemented ==> s@ == "not implemented: "@ + self->NotImplemented_0@,
    {
        match self {
            ParseError::EmptyQueryString => "empty query string".to_string(),
            ParseError::InvalidToken(_) => "invalid next token".to_string(),
            ParseError::InvalidNextToken(_, _) => "invalid next token, other than expected"
                .to_string(),
            ParseError::NoMoreTokens => "no more tokens".to_string(),
            ParseError::InvalidNumber(s) => "unable to parse number: ".to_string().concat(
                s.as_str(),
            ),
            ParseError::OperandTokenNotImplemented(_) => "operand not implemented".to_string(),
            ParseError::OperandCompactionIssue(s) => "operand compaction issue: ".to_string()
                .concat(s.as_str()),
            ParseError::NotImplemented(s) => "not implemented: ".to_string().concat(s.as_str()),
        }
    }
}

} // verus!
