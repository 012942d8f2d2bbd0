//! The faults that evaluation can end in, and how each is worded.

use vstd::prelude::*;
use vstd::string::StringExecFns;
use crate::lexer::{Token, TokenType, TokenView};
use crate::number::{decimal_text, render_int};

verus! {

/// The side of an operator on which an operand stands.
#[derive(Debug, Clone, Copy, PartialEq, Eq, Structural)]
pub enum Side {
    Left,
    Right,
}

/// What an operator accepts as an operand.
#[derive(Debug, Clone, Copy, PartialEq, Eq, Structural)]
pub enum Expected {
    /// A string or a number.
    StringOrNumber,
    /// A string, a number or a Boolean.
    Literal,
    /// A number.
    Number,
    /// A Boolean.
    Boolean,
    /// An identifier.
    Identifier,
}

/// A fault of evaluation.
#[derive(Debug, PartialEq, Eq)]
pub enum EvalError {
    /// An identifier that names neither a built-in nor a variable.
    UnknownIdentifier { name: String },
    /// An operator or built-in that takes `arity` operands and found none on
    /// one side.
    MissingOperand { operator: String, side: Side, arity: u8 },
    /// An operand of a kind or with a text that the operator does not accept.
    TypeMismatch { operator: String, expected: Expected, got: Token },
    /// An operator that the evaluator does not know.
    UnknownOperator { operator: String },
}

/// A fault as a plain value.
pub enum EvalErrorView {
    UnknownIdentifier { name: Seq<char> },
    MissingOperand { operator: Seq<char>, side: Side, arity: nat },
    TypeMismatch { operator: Seq<char>, expected: Expected, got: TokenView },
    UnknownOperator { operator: Seq<char> },
}

impl View for EvalError {
    type V = EvalErrorView;

    open spec fn view(&self) -> EvalErrorView {
        match self {
            EvalError::UnknownIdentifier { name } => EvalErrorView::UnknownIdentifier {
                name: name@,
            },
            EvalError::MissingOperand { operator, side, arity } => EvalErrorView::MissingOperand {
                operator: operator@,
                side: *side,
                arity: *arity as nat,
            },
            EvalError::TypeMismatch { operator, expected, got } => EvalErrorView::TypeMismatch {
                operator: operator@,
                expected: *expected,
                got: got@,
            },
            EvalError::UnknownOperator { operator } => EvalErrorView::UnknownOperator {
                operator: operator@,
            },
        }
    }
}

/// The word for a side.
pub open spec fn side_text(side: Side) -> Seq<char> {
    match side {
        Side::Left => "left"@,
        Side::Right => "right"@,
    }
}

/// The phrase for what an operator accepts.
pub open spec fn expected_text(expected: Expected) -> Seq<char> {
    match expected {
        Expected::StringOrNumber => "a string or number"@,
        Expected::Literal => "a string, number, or boolean"@,
        Expected::Number => "a number"@,
        Expected::Boolean => "a boolean"@,
        Expected::Identifier => "an identifier"@,
    }
}

/// The word for a kind of token.
pub open spec fn kind_text(kind: TokenType) -> Seq<char> {
    match kind {
        TokenType::Identifier => "identifier"@,
        TokenType::Number => "number"@,
        TokenType::String => "string"@,
        TokenType::Boolean => "boolean"@,
        TokenType::Operator => "operator"@,
        TokenType::Symbol => "symbol"@,
    }
}

/// The message that describes a fault.
pub open spec fn message_text(error: EvalErrorView) -> Seq<char> {
    match error {
        EvalErrorView::UnknownIdentifier { name } => "Unknown identifier: `"@ + name + "`"@,
        EvalErrorView::MissingOperand { operator, side, arity } => "`"@ + operator + "` needs "@
            + decimal_text(arity as int) + " argument(s), got nothing on its "@ + side_text(side),
        EvalErrorView::TypeMismatch { operator, expected, got } => "`"@ + operator
            + "` expected "@ + expected_text(expected) + ", got "@ + kind_text(got.kind) + ": `"@
            + got.text + "`"@,
        EvalErrorView::UnknownOperator { operator } => "Unknown operator: `"@ + operator + "`"@,
    }
}

/// The line that reports a fault: its message and the number of the line on
/// which it occurred, counted from one.
pub open spec fn report_text(error: EvalErrorView, line: nat) -> Seq<char> {
    "ERROR: "@ + message_text(error) + ". Error occurred on line "@ + decimal_text(line as int)
        + "."@
}

fn side_word(side: Side) -> (word: &'static str)
    ensures
        word@ == side_text(side),
{
    match side {
        Side::Left => "left",
        Side::Right => "right",
    }
}

fn expected_phrase(expected: Expected) -> (phrase: &'static str)
    ensures
        phrase@ == expected_text(expected),
{
    match expected {
        Expected::StringOrNumber => "a string or number",
        Expected::Literal => "a string, number, or boolean",
        Expected::Number => "a number",
        Expected::Boolean => "a boolean",
        Expected::Identifier => "an identifier",
    }
}

fn kind_word(kind: TokenType) -> (word: &'static str)
    ensures
        word@ == kind_text(kind),
{
    match kind {
        TokenType::Identifier => "identifier",
        TokenType::Number => "number",
        TokenType::String => "string",
        TokenType::Boolean => "boolean",
        TokenType::Operator => "operator",
        TokenType::Symbol => "symbol",
    }
}

impl EvalError {
    /// The message that describes the fault.
    pub fn message(&self) -> (out: String)
        ensures
            out@ == message_text(self@),
    {
        match self {
            EvalError::UnknownIdentifier { name } => {
                let mut out = String::from_str("Unknown identifier: `");
                out.append(name.as_str());
                out.append("`");
                out
            },
            EvalError::MissingOperand { operator, side, arity } => {
                let count = render_int(*arity as i128);
                let mut out = String::from_str("`");
                out.append(operator.as_str());
                out.append("` needs ");
                out.append(count.as_str());
                out.append(" argument(s), got nothing on its ");
                out.append(side_word(*side));
                out
            },
            EvalError::TypeMismatch { operator, expected, got } => {
                let mut out = String::from_str("`");
                out.append(operator.as_str());
                out.append("` expected ");
                out.append(expected_phrase(*expected));
                out.append(", got ");
                out.append(kind_word(got.token_type));
                out.append(": `");
                out.append(got.value.as_str());
                out.append("`");
                out
            },
            EvalError::UnknownOperator { operator } => {
                let mut out = String::from_str("Unknown operator: `");
                out.append(operator.as_str());
                out.append("`");
                out
            },
        }
    }

    /// The line that reports the fault as having occurred on line `line`,
    /// counted from one.
    pub fn report(&self, line: usize) -> (out: String)
        ensures
            out@ == report_text(self@, line as nat),
    {
        let number = render_int(line as i128);
        let mut out = String::from_str("ERROR: ");
        out.append(self.message().as_str());
        out.append(". Error occurred on line ");
        out.append(number.as_str());
        out.append(".");
        out
    }
}

} // verus!
