//! What evaluation means, stated over plain values: the evaluator's state,
//! what each operator gives, and how a token, a line and a program change
//! the state.

use vstd::prelude::*;
use crate::fault::{EvalErrorView, Expected, Side};
use crate::lexer::{TokenType, TokenView};
use crate::number::{decimal_text, decimal_value_within};
use crate::parser::{token_kind, value_kind};
use crate::table::VariableView;

verus! {

/// An entry of the journal: a line that was printed, or a fault with the
/// number of the line on which it occurred, counted from one.
pub enum EventView {
    Printed { text: Seq<char>, emphasized: bool },
    Failed { error: EvalErrorView, line: nat },
}

/// The evaluator's state as plain values.
pub struct ParserView {
    /// The operand stack; its top is the last element.
    pub stack: Seq<TokenView>,
    /// The variable table.
    pub variables: Map<Seq<char>, VariableView>,
    /// The tokens of the line at hand, in source order.
    pub tokens_on_line: Seq<TokenView>,
    /// The number of the line at hand, counted from zero.
    pub line: nat,
    /// The token at hand.
    pub current_token: TokenView,
    /// The place of the token at hand among the tokens of its line.
    pub index: nat,
    /// Whether the token that comes next was used up as an operand.
    pub skip_next: bool,
    /// Whether identifiers are looked up in the variable table.
    pub resolve_variables: bool,
    /// Whether a fault has stopped evaluation.
    pub should_abort: bool,
    /// The journal, oldest entry first.
    pub events: Seq<EventView>,
}

impl ParserView {
    /// The state of a new evaluator: nothing on the stack, no variables, no
    /// line at hand, lookup enabled, nothing in the journal.
    pub open spec fn fresh() -> ParserView {
        ParserView {
            stack: Seq::empty(),
            variables: Map::empty(),
            tokens_on_line: Seq::empty(),
            line: 0,
            current_token: blank_token(),
            index: 0,
            skip_next: false,
            resolve_variables: true,
            should_abort: false,
            events: Seq::empty(),
        }
    }
}

/// The token with no text, of kind identifier.
pub open spec fn blank_token() -> TokenView {
    TokenView { kind: TokenType::Identifier, text: Seq::empty() }
}

/// The empty string literal.
pub open spec fn empty_string_token() -> TokenView {
    TokenView { kind: TokenType::String, text: Seq::empty() }
}

/// The Boolean token for a truth value.
pub open spec fn truth(value: bool) -> TokenView {
    TokenView {
        kind: TokenType::Boolean,
        text: if value {
            "true"@
        } else {
            "false"@
        },
    }
}

/// The truth value that a text denotes, if it is `true` or `false`.
pub open spec fn truth_value(text: Seq<char>) -> Option<bool> {
    if text == "true"@ {
        Some(true)
    } else if text == "false"@ {
        Some(false)
    } else {
        None
    }
}

/// The 64-bit integer that a text denotes, if it denotes one.
pub open spec fn int64(text: Seq<char>) -> Option<int> {
    decimal_value_within(text, i64::MIN as int, i64::MAX as int)
}

/// The 128-bit integer that a text denotes, if it denotes one.
pub open spec fn int128(text: Seq<char>) -> Option<int> {
    decimal_value_within(text, i128::MIN as int, i128::MAX as int)
}

/// The token that the variable `name` stands for, while lookup is enabled
/// and the table has such a variable.
pub open spec fn lookup(s: ParserView, name: Seq<char>) -> Option<TokenView> {
    if s.resolve_variables && s.variables.contains_key(name) {
        Some(TokenView { kind: token_kind(s.variables[name].kind), text: s.variables[name].text })
    } else {
        None
    }
}

/// A token as an operand: an identifier that names a variable gives the
/// variable's value, any other token gives itself.
pub open spec fn resolved(s: ParserView, token: TokenView) -> TokenView {
    if token.kind == TokenType::Identifier {
        match lookup(s, token.text) {
            Some(value) => value,
            None => token,
        }
    } else {
        token
    }
}

/// The operand directly before the token at hand in source order, if a token
/// stands there.
pub open spec fn previous(s: ParserView) -> Option<TokenView> {
    if 0 < s.index <= s.tokens_on_line.len() {
        Some(resolved(s, s.tokens_on_line[s.index - 1]))
    } else {
        None
    }
}

/// The operand directly behind the token at hand in source order, if a token
/// stands there.
pub open spec fn following(s: ParserView) -> Option<TokenView> {
    if s.index + 1 < s.tokens_on_line.len() {
        Some(resolved(s, s.tokens_on_line[s.index as int + 1]))
    } else {
        None
    }
}

/// The top of the operand stack, if the stack holds anything.
pub open spec fn top(s: ParserView) -> Option<TokenView> {
    if s.stack.len() > 0 {
        Some(s.stack.last())
    } else {
        None
    }
}

/// The state without the top of the operand stack; an empty stack stays
/// empty.
pub open spec fn popped(s: ParserView) -> ParserView {
    ParserView {
        stack: if s.stack.len() > 0 {
            s.stack.drop_last()
        } else {
            s.stack
        },
        ..s
    }
}

/// The state with `token` on top of the operand stack.
pub open spec fn pushed(s: ParserView, token: TokenView) -> ParserView {
    ParserView { stack: s.stack.push(token), ..s }
}

/// The state after a fault: the fault is entered in the journal with the
/// number of the line at hand, counted from one, and evaluation is stopped.
pub open spec fn failed(s: ParserView, error: EvalErrorView) -> ParserView {
    ParserView {
        should_abort: true,
        events: s.events.push(EventView::Failed { error, line: s.line + 1 }),
        ..s
    }
}

/// What taking an operand off the stack gives: the top of the stack, else the
/// default, else the blank token.
pub open spec fn taken(s: ParserView, default: Option<TokenView>) -> TokenView {
    match top(s) {
        Some(token) => token,
        None => match default {
            Some(token) => token,
            None => blank_token(),
        },
    }
}

/// The state after taking an operand off the stack on behalf of `name`: with
/// an empty stack and no default, `name` lacks its operand.
pub open spec fn after_taking(
    s: ParserView,
    name: Seq<char>,
    arity: nat,
    default: Option<TokenView>,
) -> ParserView {
    if s.stack.len() == 0 && default is None {
        failed(s, EvalErrorView::MissingOperand { operator: name, side: Side::Right, arity })
    } else {
        popped(s)
    }
}

/// What asking for a neighbour in source order gives: the neighbour, else the
/// default, else the blank token.
pub open spec fn neighbour(found: Option<TokenView>, default: Option<TokenView>) -> TokenView {
    match found {
        Some(token) => token,
        None => match default {
            Some(token) => token,
            None => blank_token(),
        },
    }
}

/// The state after asking for a neighbour on behalf of `name`: with no
/// neighbour and no default, `name` lacks its operand on that side.
pub open spec fn after_neighbour(
    s: ParserView,
    found: Option<TokenView>,
    name: Seq<char>,
    side: Side,
    arity: nat,
    default: Option<TokenView>,
) -> ParserView {
    if found is None && default is None {
        failed(s, EvalErrorView::MissingOperand { operator: name, side, arity })
    } else {
        s
    }
}

/// The two operands of the binary operator at hand: on the left the token
/// before it in source order, on the right the top of the stack.
pub open spec fn operands(s: ParserView) -> Option<(TokenView, TokenView)> {
    match previous(s) {
        Some(left) => match top(s) {
            Some(right) => Some((left, right)),
            None => None,
        },
        None => None,
    }
}

/// The state after fetching the operands of the binary operator `operator`:
/// the top of the stack is used up in any case; with both operands there, the
/// token before the operator is marked as used up; else the operator lacks an
/// operand, the left one first.
pub open spec fn after_operands(s: ParserView, operator: Seq<char>) -> ParserView {
    if previous(s) is None {
        failed(
            popped(s),
            EvalErrorView::MissingOperand { operator, side: Side::Left, arity: 2 },
        )
    } else if top(s) is None {
        failed(
            popped(s),
            EvalErrorView::MissingOperand { operator, side: Side::Right, arity: 2 },
        )
    } else {
        ParserView { skip_next: true, ..popped(s) }
    }
}

/// The operators `==` and `!=`.
pub open spec fn is_equality(operator: Seq<char>) -> bool {
    operator == "=="@ || operator == "!="@
}

/// The operators `>`, `<`, `>=` and `<=`.
pub open spec fn is_comparison(operator: Seq<char>) -> bool {
    operator == ">"@ || operator == "<"@ || operator == ">="@ || operator == "<="@
}

/// The operators `&&` and `||`.
pub open spec fn is_logical(operator: Seq<char>) -> bool {
    operator == "&&"@ || operator == "||"@
}

/// The operators that compute a value from two operands.
pub open spec fn is_binary(operator: Seq<char>) -> bool {
    operator == "+"@ || is_equality(operator) || is_comparison(operator) || is_logical(operator)
}

/// What a binary operator accepts as an operand.
pub open spec fn accepts(operator: Seq<char>) -> Expected {
    if operator == "+"@ {
        Expected::StringOrNumber
    } else if is_equality(operator) {
        Expected::Literal
    } else if is_comparison(operator) {
        Expected::Number
    } else {
        Expected::Boolean
    }
}

/// Whether a token of kind `kind` is what is expected.
pub open spec fn fits(expected: Expected, kind: TokenType) -> bool {
    match expected {
        Expected::StringOrNumber => kind == TokenType::String || kind == TokenType::Number,
        Expected::Literal => kind == TokenType::String || kind == TokenType::Number || kind
            == TokenType::Boolean,
        Expected::Number => kind == TokenType::Number,
        Expected::Boolean => kind == TokenType::Boolean,
        Expected::Identifier => kind == TokenType::Identifier,
    }
}

/// The fault of an operator that got `got` where it expected something else.
pub open spec fn mismatch(operator: Seq<char>, expected: Expected, got: TokenView) -> EvalErrorView {
    EvalErrorView::TypeMismatch { operator, expected, got }
}

/// How a comparison operator orders two integers.
pub open spec fn compares(operator: Seq<char>, left: int, right: int) -> bool {
    if operator == ">"@ {
        left > right
    } else if operator == "<"@ {
        left < right
    } else if operator == ">="@ {
        left >= right
    } else {
        left <= right
    }
}

/// What `+` gives for two operands that are strings or numbers: with a string
/// among them their texts joined, left before right; else the sum of the two
/// 64-bit integers, as its canonical decimal text.
pub open spec fn sum(left: TokenView, right: TokenView) -> Result<TokenView, EvalErrorView> {
    if left.kind == TokenType::String || right.kind == TokenType::String {
        Ok(TokenView { kind: TokenType::String, text: left.text + right.text })
    } else {
        match int64(left.text) {
            None => Err(mismatch("+"@, Expected::Number, left)),
            Some(x) => match int64(right.text) {
                None => Err(mismatch("+"@, Expected::Number, right)),
                Some(y) => Ok(TokenView { kind: TokenType::Number, text: decimal_text(x + y) }),
            },
        }
    }
}

/// What a comparison operator gives for two numbers: whether the 128-bit
/// integers that they denote stand in that order.
pub open spec fn comparison(operator: Seq<char>, left: TokenView, right: TokenView) -> Result<
    TokenView,
    EvalErrorView,
> {
    match int128(left.text) {
        None => Err(mismatch(operator, Expected::Number, left)),
        Some(x) => match int128(right.text) {
            None => Err(mismatch(operator, Expected::Number, right)),
            Some(y) => Ok(truth(compares(operator, x, y))),
        },
    }
}

/// What `&&` or `||` gives for two Booleans.
pub open spec fn connective(operator: Seq<char>, left: TokenView, right: TokenView) -> Result<
    TokenView,
    EvalErrorView,
> {
    match truth_value(left.text) {
        None => Err(mismatch(operator, Expected::Boolean, left)),
        Some(x) => match truth_value(right.text) {
            None => Err(mismatch(operator, Expected::Boolean, right)),
            Some(y) => Ok(
                truth(
                    if operator == "&&"@ {
                        x && y
                    } else {
                        x || y
                    },
                ),
            ),
        },
    }
}

/// What a binary operator gives for its two operands: a value, or the fault
/// of the first operand that it does not accept, the left one first.
/// `==` and `!=` compare kind and text. An operator that computes no value
/// from two operands is unknown here.
pub open spec fn apply_binary(operator: Seq<char>, left: TokenView, right: TokenView) -> Result<
    TokenView,
    EvalErrorView,
> {
    if !is_binary(operator) {
        Err(EvalErrorView::UnknownOperator { operator })
    } else if !fits(accepts(operator), left.kind) {
        Err(mismatch(operator, accepts(operator), left))
    } else if !fits(accepts(operator), right.kind) {
        Err(mismatch(operator, accepts(operator), right))
    } else if operator == "+"@ {
        sum(left, right)
    } else if is_equality(operator) {
        Ok(truth((left == right) == (operator == "=="@)))
    } else if is_comparison(operator) {
        comparison(operator, left, right)
    } else {
        connective(operator, left, right)
    }
}

/// The state after the binary operator `operator`: its operands are fetched
/// and its value is pushed, or its fault is entered.
pub open spec fn after_binary(s: ParserView, operator: Seq<char>) -> ParserView {
    match operands(s) {
        None => after_operands(s, operator),
        Some((left, right)) => match apply_binary(operator, left, right) {
            Ok(value) => pushed(after_operands(s, operator), value),
            Err(error) => failed(after_operands(s, operator), error),
        },
    }
}

/// The state after `=`. Its operands are fetched with lookup disabled, so
/// that the name on the left stands for itself; lookup is enabled afterwards
/// whatever happened. The name must be an identifier and the value a string,
/// a number or a Boolean: the variable then gets the value's kind and text.
pub open spec fn after_assignment(s: ParserView) -> ParserView {
    let quiet = ParserView { resolve_variables: false, ..s };
    let fetched = after_operands(quiet, "="@);
    let done = match operands(quiet) {
        None => fetched,
        Some((name, value)) => if name.kind != TokenType::Identifier {
            failed(fetched, mismatch("="@, Expected::Identifier, name))
        } else {
            match value_kind(value.kind) {
                None => failed(fetched, mismatch("="@, Expected::Literal, value)),
                Some(kind) => ParserView {
                    variables: fetched.variables.insert(
                        name.text,
                        VariableView { kind, text: value.text },
                    ),
                    ..fetched
                },
            }
        },
    };
    ParserView { resolve_variables: true, ..done }
}

/// The state after the operator `operator`.
pub open spec fn after_operator(s: ParserView, operator: Seq<char>) -> ParserView {
    if operator == "="@ {
        after_assignment(s)
    } else if is_binary(operator) {
        after_binary(s, operator)
    } else {
        failed(s, EvalErrorView::UnknownOperator { operator })
    }
}

/// The number of `0` characters at the start of a text.
pub open spec fn leading_zeros(text: Seq<char>) -> nat
    decreases text.len(),
{
    if text.len() > 0 && text[0] == '0' {
        1 + leading_zeros(text.drop_first())
    } else {
        0
    }
}

/// A numeral as it is printed: `0` as it is, any other without the zeros at
/// its start.
pub open spec fn without_leading_zeros(text: Seq<char>) -> Seq<char> {
    if text == seq!['0'] {
        text
    } else {
        text.skip(leading_zeros(text) as int)
    }
}

/// The text that `print` writes for a token: a number without the zeros at
/// its start, anything else as it is.
pub open spec fn printed_text(token: TokenView) -> Seq<char> {
    if token.kind == TokenType::Number {
        without_leading_zeros(token.text)
    } else {
        token.text
    }
}

/// The state after `print`: the top of the stack, or the empty string if the
/// stack is empty, is taken and entered in the journal as printed. Booleans
/// are marked for emphasis.
pub open spec fn after_print(s: ParserView) -> ParserView {
    let token = taken(s, Some(empty_string_token()));
    ParserView {
        events: s.events.push(
            EventView::Printed {
                text: printed_text(token),
                emphasized: token.kind == TokenType::Boolean,
            },
        ),
        ..popped(s)
    }
}

/// The state after the identifier `name`: `print` prints; any other name is
/// looked up and its value pushed, and is a fault if it names no variable.
pub open spec fn after_identifier(s: ParserView, name: Seq<char>) -> ParserView {
    if name == "print"@ {
        after_print(s)
    } else {
        match lookup(s, name) {
            Some(value) => pushed(s, value),
            None => failed(s, EvalErrorView::UnknownIdentifier { name }),
        }
    }
}

/// The state after coming to the token at place `index` of the line at hand.
/// Nothing happens once evaluation is stopped. A token that was used up as an
/// operand is passed over. Else the token is the one at hand: a string, a
/// number or a Boolean is pushed, an identifier and an operator act, and a
/// symbol does nothing.
pub open spec fn after_token(s: ParserView, index: nat) -> ParserView {
    if s.should_abort {
        s
    } else if s.skip_next {
        ParserView { skip_next: false, ..s }
    } else {
        let token = s.tokens_on_line[index as int];
        let here = ParserView { current_token: token, index, ..s };
        match token.kind {
            TokenType::Identifier => after_identifier(here, token.text),
            TokenType::Operator => after_operator(here, token.text),
            TokenType::Symbol => here,
            TokenType::Number => pushed(here, token),
            TokenType::String => pushed(here, token),
            TokenType::Boolean => pushed(here, token),
        }
    }
}

/// The state after the first `count` tokens of the line at hand, which are
/// come to from the last of them back to the first.
pub open spec fn after_tokens(s: ParserView, count: nat) -> ParserView
    decreases count,
{
    if count == 0 {
        s
    } else {
        after_tokens(after_token(s, (count - 1) as nat), (count - 1) as nat)
    }
}

/// The state at the start of line `line`: its tokens are the ones at hand and
/// no token is marked as used up.
pub open spec fn at_line(s: ParserView, tokens: Seq<TokenView>, line: nat) -> ParserView {
    ParserView { tokens_on_line: tokens, line, skip_next: false, ..s }
}

/// The state after line `line` with the tokens `tokens`. Nothing happens once
/// evaluation is stopped.
pub open spec fn after_line(s: ParserView, tokens: Seq<TokenView>, line: nat) -> ParserView {
    if s.should_abort {
        s
    } else {
        after_tokens(at_line(s, tokens, line), tokens.len())
    }
}

/// The state after the lines of `program` from line `from` on, in order.
pub open spec fn after_lines(s: ParserView, program: Seq<Seq<TokenView>>, from: nat) -> ParserView
    decreases program.len() - from,
{
    if from >= program.len() {
        s
    } else {
        after_lines(after_line(s, program[from as int], from), program, from + 1)
    }
}

/// The state after a whole program.
pub open spec fn after_program(s: ParserView, program: Seq<Seq<TokenView>>) -> ParserView {
    after_lines(s, program, 0)
}

} // verus!
