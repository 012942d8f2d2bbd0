//! The evaluator: it runs token lines against an operand stack and a
//! variable table, and keeps a journal of what was printed and what failed.

use vstd::prelude::*;
use vstd::std_specs::convert::FromSpecImpl;
use vstd::string::StringExecFns;
use crate::fault::{EvalError, EvalErrorView, Expected, Side};
use crate::lexer::{LexedTokenLines, Token, TokenType, TokenView};
use crate::number::{parse_i128, parse_i64, render_int};
use crate::semantics::{
    accepts, after_assignment, after_identifier, after_line, after_lines, after_neighbour,
    after_operands, after_operator, after_program, after_taking, after_token, after_tokens,
    apply_binary, failed, fits, following, is_binary, leading_zeros, lookup, mismatch, neighbour,
    operands, popped, previous, pushed, resolved, taken, top, truth, truth_value,
    without_leading_zeros, EventView, ParserView,
};
use crate::table::{Variable, VariableTable};
use crate::text::{chars_of, string_of};

verus! {

/// The kind of value that a variable holds.
#[derive(Debug, Clone, Copy, PartialEq, Eq, Structural)]
pub enum VariableType {
    String,
    Number,
    Boolean,
}

impl Default for VariableType {
    fn default() -> (kind: VariableType)
        ensures
            kind == VariableType::String,
    {
        VariableType::String
    }
}

/// The kind of token that stands for a value of kind `kind`.
pub open spec fn token_kind(kind: VariableType) -> TokenType {
    match kind {
        VariableType::String => TokenType::String,
        VariableType::Number => TokenType::Number,
        VariableType::Boolean => TokenType::Boolean,
    }
}

/// The kind of value that a token of kind `kind` stands for: strings, numbers
/// and Booleans are values, the other kinds are not.
pub open spec fn value_kind(kind: TokenType) -> Option<VariableType> {
    match kind {
        TokenType::String => Some(VariableType::String),
        TokenType::Number => Some(VariableType::Number),
        TokenType::Boolean => Some(VariableType::Boolean),
        TokenType::Identifier => None,
        TokenType::Operator => None,
        TokenType::Symbol => None,
    }
}

impl From<VariableType> for TokenType {
    fn from(variable_type: VariableType) -> (kind: TokenType) {
        match variable_type {
            VariableType::String => TokenType::String,
            VariableType::Number => TokenType::Number,
            VariableType::Boolean => TokenType::Boolean,
        }
    }
}

impl FromSpecImpl<VariableType> for TokenType {
    open spec fn obeys_from_spec() -> bool {
        true
    }

    open spec fn from_spec(variable_type: VariableType) -> TokenType {
        token_kind(variable_type)
    }
}

impl VariableType {
    /// The kind of value that a token of kind `kind` stands for, if it stands
    /// for a value.
    pub fn of_token(kind: TokenType) -> (found: Option<VariableType>)
        ensures
            found == value_kind(kind),
    {
        match kind {
            TokenType::String => Some(VariableType::String),
            TokenType::Number => Some(VariableType::Number),
            TokenType::Boolean => Some(VariableType::Boolean),
            TokenType::Identifier => None,
            TokenType::Operator => None,
            TokenType::Symbol => None,
        }
    }
}

/// An entry of the evaluator's journal.
#[derive(Debug, PartialEq, Eq)]
pub enum Event {
    /// A line that `print` wrote, and whether it is to be shown with emphasis.
    Printed { text: String, emphasized: bool },
    /// A fault, with the number of the line on which it occurred, counted
    /// from one.
    Failed { error: EvalError, line: usize },
}

impl View for Event {
    type V = EventView;

    open spec fn view(&self) -> EventView {
        match self {
            Event::Printed { text, emphasized } => EventView::Printed {
                text: text@,
                emphasized: *emphasized,
            },
            Event::Failed { error, line } => EventView::Failed { error: error@, line: *line as nat },
        }
    }
}

impl DeepView for Event {
    type V = EventView;

    open spec fn deep_view(&self) -> EventView {
        self@
    }
}

/// A token that may be absent, as a plain value.
pub open spec fn token_view(token: Option<Token>) -> Option<TokenView> {
    match token {
        Some(token) => Some(token@),
        None => None,
    }
}

/// Two tokens that may be absent, as plain values.
pub open spec fn pair_view(pair: Option<(Token, Token)>) -> Option<(TokenView, TokenView)> {
    match pair {
        Some((left, right)) => Some((left@, right@)),
        None => None,
    }
}

/// The outcome of an operator as a plain value.
pub open spec fn outcome_view(outcome: Result<Token, EvalError>) -> Result<
    TokenView,
    EvalErrorView,
> {
    match outcome {
        Ok(token) => Ok(token@),
        Err(error) => Err(error@),
    }
}

/// The evaluator: operand stack, variable table, the line at hand and the
/// journal. The variables live as long as the evaluator does.
pub struct Parser {
    stack: Vec<Token>,
    variables: VariableTable,
    tokens_on_line: Vec<Token>,
    line: usize,
    current_token: Token,
    index: usize,
    skip_next: bool,
    resolve_variables: bool,
    /// Whether a fault has stopped evaluation. Nothing is evaluated while it
    /// is set; whoever wants to go on clears it.
    pub should_abort: bool,
    events: Vec<Event>,
}

impl View for Parser {
    type V = ParserView;

    closed spec fn view(&self) -> ParserView {
        ParserView {
            stack: self.stack.deep_view(),
            variables: self.variables@,
            tokens_on_line: self.tokens_on_line.deep_view(),
            line: self.line as nat,
            current_token: self.current_token@,
            index: self.index as nat,
            skip_next: self.skip_next,
            resolve_variables: self.resolve_variables,
            should_abort: self.should_abort,
            events: self.events.deep_view(),
        }
    }
}

/// Whether `text` is the text of `literal`.
fn is_text(text: &str, literal: &str) -> (same: bool)
    ensures
        same == (text@ == literal@),
{
    let a = String::from_str(text);
    let b = String::from_str(literal);
    a == b
}

/// Whether `operator` computes a value from two operands.
fn binary(operator: &str) -> (yes: bool)
    ensures
        yes == is_binary(operator@),
{
    is_text(operator, "+") || is_text(operator, "==") || is_text(operator, "!=") || is_text(
        operator,
        ">",
    ) || is_text(operator, "<") || is_text(operator, ">=") || is_text(operator, "<=") || is_text(
        operator,
        "&&",
    ) || is_text(operator, "||")
}

/// What a binary operator accepts as an operand.
fn expected_by(operator: &str) -> (expected: Expected)
    ensures
        expected == accepts(operator@),
{
    if is_text(operator, "+") {
        Expected::StringOrNumber
    } else if is_text(operator, "==") || is_text(operator, "!=") {
        Expected::Literal
    } else if is_text(operator, ">") || is_text(operator, "<") || is_text(operator, ">=")
        || is_text(operator, "<=") {
        Expected::Number
    } else {
        Expected::Boolean
    }
}

/// Whether a token of kind `kind` is what is expected.
fn suits(expected: Expected, kind: TokenType) -> (yes: bool)
    ensures
        yes == fits(expected, kind),
{
    match expected {
        Expected::StringOrNumber => kind == TokenType::String || kind == TokenType::Number,
        Expected::Literal => kind == TokenType::String || kind == TokenType::Number || kind
            == TokenType::Boolean,
        Expected::Number => kind == TokenType::Number,
        Expected::Boolean => kind == TokenType::Boolean,
        Expected::Identifier => kind == TokenType::Identifier,
    }
}

/// The Boolean token for a truth value.
fn truth_token(value: bool) -> (token: Token)
    ensures
        token@ == truth(value),
{
    if value {
        Token { token_type: TokenType::Boolean, value: String::from_str("true") }
    } else {
        Token { token_type: TokenType::Boolean, value: String::from_str("false") }
    }
}

/// The truth value that a text denotes, if it is `true` or `false`.
fn truth_of(text: &str) -> (value: Option<bool>)
    ensures
        value == truth_value(text@),
{
    if is_text(text, "true") {
        Some(true)
    } else if is_text(text, "false") {
        Some(false)
    } else {
        None
    }
}

/// The fault of an operator that got `got` where it expected something else.
fn mismatch_of(operator: &str, expected: Expected, got: Token) -> (error: EvalError)
    ensures
        error@ == mismatch(operator@, expected, got@),
{
    EvalError::TypeMismatch { operator: String::from_str(operator), expected, got }
}

/// Applies a binary operator to its two operands: the value that it gives, or
/// the fault of the first operand that it does not accept.
pub fn binary_outcome(operator: &str, left: Token, right: Token) -> (outcome: Result<
    Token,
    EvalError,
>)
    ensures
        outcome_view(outcome) == apply_binary(operator@, left@, right@),
{
    if !binary(operator) {
        return Err(EvalError::UnknownOperator { operator: String::from_str(operator) });
    }
    let expected = expected_by(operator);
    if !suits(expected, left.token_type) {
        return Err(mismatch_of(operator, expected, left));
    }
    if !suits(expected, right.token_type) {
        return Err(mismatch_of(operator, expected, right));
    }
    if is_text(operator, "+") {
        if left.token_type == TokenType::String || right.token_type == TokenType::String {
            return Ok(
                Token {
                    token_type: TokenType::String,
                    value: left.value.concat(right.value.as_str()),
                },
            );
        }
        match parse_i64(left.value.as_str()) {
            None => Err(mismatch_of(operator, Expected::Number, left)),
            Some(x) => match parse_i64(right.value.as_str()) {
                None => Err(mismatch_of(operator, Expected::Number, right)),
                Some(y) => Ok(
                    Token { token_type: TokenType::Number, value: render_int(x as i128 + y as i128) },
                ),
            },
        }
    } else if is_text(operator, "==") || is_text(operator, "!=") {
        let same = left.token_type == right.token_type && left.value == right.value;
        assert(same == (left@ == right@));
        Ok(truth_token(same == is_text(operator, "==")))
    } else if is_text(operator, ">") || is_text(operator, "<") || is_text(operator, ">=")
        || is_text(operator, "<=") {
        match parse_i128(left.value.as_str()) {
            None => Err(mismatch_of(operator, Expected::Number, left)),
            Some(x) => match parse_i128(right.value.as_str()) {
                None => Err(mismatch_of(operator, Expected::Number, right)),
                Some(y) => {
                    let holds = if is_text(operator, ">") {
                        x > y
                    } else if is_text(operator, "<") {
                        x < y
                    } else if is_text(operator, ">=") {
                        x >= y
                    } else {
                        x <= y
                    };
                    Ok(truth_token(holds))
                },
            },
        }
    } else {
        match truth_of(left.value.as_str()) {
            None => Err(mismatch_of(operator, Expected::Boolean, left)),
            Some(x) => match truth_of(right.value.as_str()) {
                None => Err(mismatch_of(operator, Expected::Boolean, right)),
                Some(y) => {
                    let value = if is_text(operator, "&&") {
                        x && y
                    } else {
                        x || y
                    };
                    Ok(truth_token(value))
                },
            },
        }
    }
}

/// A numeral as it is printed: `0` as it is, any other without the zeros at
/// its start.
pub fn strip_zeros(text: &str) -> (out: String)
    ensures
        out@ == without_leading_zeros(text@),
{
    let chars = chars_of(text);
    let n = chars.len();
    if n == 1 && chars[0] == '0' {
        assert(chars@ == seq!['0']);
        return string_of(&chars, 0, n);
    }
    assert(chars@ != seq!['0']) by {
        if chars@ == seq!['0'] {
            assert(chars@.len() == 1);
            assert(chars@[0] == '0');
        }
    }
    let mut k: usize = 0;
    assert(chars@.skip(0) == chars@);
    while k < n && chars[k] == '0'
        invariant
            k <= n,
            n == chars.len(),
            leading_zeros(chars@) == k + leading_zeros(chars@.skip(k as int)),
        decreases n - k,
    {
        proof {
            let rest = chars@.skip(k as int);
            assert(rest[0] == '0');
            assert(rest.drop_first() == chars@.skip(k + 1));
        }
        k += 1;
    }
    proof {
        let rest = chars@.skip(k as int);
        if k < n {
            assert(rest[0] != '0');
        }
        assert(leading_zeros(rest) == 0);
        assert(chars@.skip(k as int) == chars@.subrange(k as int, n as int));
    }
    string_of(&chars, k, n)
}

/// A copy of a line of tokens.
fn copy_tokens(tokens: &Vec<Token>) -> (copy: Vec<Token>)
    ensures
        copy.deep_view() == tokens.deep_view(),
{
    let mut copy: Vec<Token> = Vec::new();
    let mut i: usize = 0;
    while i < tokens.len()
        invariant
            i <= tokens.len(),
            copy.len() == i,
            forall|j: int| 0 <= j < i ==> copy[j]@ == tokens[j]@,
        decreases tokens.len() - i,
    {
        copy.push(tokens[i].clone());
        i += 1;
    }
    assert(copy.deep_view() =~= tokens.deep_view());
    copy
}

impl Default for Parser {
    fn default() -> (parser: Parser)
        ensures
            parser.wf(),
            parser@ == ParserView::fresh(),
    {
        let parser = Parser {
            stack: Vec::new(),
            variables: VariableTable::new(),
            tokens_on_line: Vec::new(),
            line: 0,
            current_token: Token::default(),
            index: 0,
            skip_next: false,
            resolve_variables: true,
            should_abort: false,
            events: Vec::new(),
        };
        assert(parser.stack.deep_view() == Seq::<TokenView>::empty());
        assert(parser.tokens_on_line.deep_view() == Seq::<TokenView>::empty());
        assert(parser.events.deep_view() == Seq::<EventView>::empty());
        parser
    }
}

impl Parser {
    /// The evaluator's invariant: the variable table is sound, and the number
    /// of the line at hand has a successor.
    pub closed spec fn wf(&self) -> bool {
        self.variables.wf() && self.line < usize::MAX
    }

    /// Enters a fault in the journal, with the number of the line at hand
    /// counted from one, and stops evaluation.
    pub fn error(&mut self, fault: EvalError)
        requires
            old(self).wf(),
        ensures
            final(self).wf(),
            final(self)@ == failed(old(self)@, fault@),
    {
        let ghost before = self.events.deep_view();
        let event = Event::Failed { error: fault, line: self.line + 1 };
        self.events.push(event);
        assert(self.events.deep_view() == before.push(event@));
        self.should_abort = true;
    }

    /// Looks an identifier up in the variable table: the token for the
    /// variable's value, or nothing while lookup is disabled or when the
    /// table has no such variable.
    pub fn try_parse_variable(&self, identifier: &String) -> (found: Option<Token>)
        requires
            self.wf(),
        ensures
            token_view(found) == lookup(self@, identifier@),
    {
        if !self.resolve_variables {
            return None;
        }
        match self.variables.get(identifier) {
            Some(variable) => Some(
                Token { token_type: TokenType::from(variable.variable_type), value: variable.value },
            ),
            None => None,
        }
    }

    /// The token at place `i` of the line at hand, as an operand.
    fn operand_at(&self, i: usize) -> (token: Token)
        requires
            self.wf(),
            i < self.tokens_on_line.len(),
        ensures
            token@ == resolved(self@, self@.tokens_on_line[i as int]),
    {
        let token = &self.tokens_on_line[i];
        if token.token_type == TokenType::Identifier {
            match self.try_parse_variable(&token.value) {
                Some(value) => value,
                None => token.clone(),
            }
        } else {
            token.clone()
        }
    }

    /// The operand directly behind the token at hand in source order, if a
    /// token stands there.
    pub fn try_next_token(&self) -> (found: Option<Token>)
        requires
            self.wf(),
        ensures
            token_view(found) == following(self@),
    {
        if self.index >= self.tokens_on_line.len() || self.tokens_on_line.len() - self.index <= 1 {
            return None;
        }
        Some(self.operand_at(self.index + 1))
    }

    /// The operand directly before the token at hand in source order, if a
    /// token stands there.
    pub fn try_previous_token(&self) -> (found: Option<Token>)
        requires
            self.wf(),
        ensures
            token_view(found) == previous(self@),
    {
        if self.index == 0 || self.index > self.tokens_on_line.len() {
            return None;
        }
        Some(self.operand_at(self.index - 1))
    }

    /// Settles what a request for an operand gives when `found` is all there
    /// is: the operand, else the default, else the blank token together with a
    /// fault that says `identifier` lacks an operand on that side.
    fn or_default(
        &mut self,
        found: Option<Token>,
        identifier: &str,
        side: Side,
        expected_argument_amount: u8,
        default: Option<Token>,
    ) -> (token: Token)
        requires
            old(self).wf(),
        ensures
            final(self).wf(),
            token@ == neighbour(token_view(found), token_view(default)),
            final(self)@ == after_neighbour(
                old(self)@,
                token_view(found),
                identifier@,
                side,
                expected_argument_amount as nat,
                token_view(default),
            ),
    {
        match found {
            Some(token) => token,
            None => match default {
                Some(token) => token,
                None => {
                    self.error(
                        EvalError::MissingOperand {
                            operator: String::from_str(identifier),
                            side,
                            arity: expected_argument_amount,
                        },
                    );
                    Token::default()
                },
            },
        }
    }

    /// The operand directly behind the token at hand in source order. Where
    /// no token stands there, the default is given; without a default, the
    /// blank token is given and `identifier`, which takes
    /// `expected_argument_amount` operands, is reported to lack one on its
    /// right.
    pub fn next_token(
        &mut self,
        identifier: &str,
        expected_argument_amount: u8,
        default: Option<Token>,
    ) -> (token: Token)
        requires
            old(self).wf(),
        ensures
            final(self).wf(),
            token@ == neighbour(following(old(self)@), token_view(default)),
            final(self)@ == after_neighbour(
                old(self)@,
                following(old(self)@),
                identifier@,
                Side::Right,
                expected_argument_amount as nat,
                token_view(default),
            ),
    {
        let found = self.try_next_token();
        self.or_default(found, identifier, Side::Right, expected_argument_amount, default)
    }

    /// The operand directly before the token at hand in source order. Where
    /// no token stands there, the default is given; without a default, the
    /// blank token is given and `identifier`, which takes
    /// `expected_argument_amount` operands, is reported to lack one on its
    /// left.
    pub fn previous_token(
        &mut self,
        identifier: &str,
        expected_argument_amount: u8,
        default: Option<Token>,
    ) -> (token: Token)
        requires
            old(self).wf(),
        ensures
            final(self).wf(),
            token@ == neighbour(previous(old(self)@), token_view(default)),
            final(self)@ == after_neighbour(
                old(self)@,
                previous(old(self)@),
                identifier@,
                Side::Left,
                expected_argument_amount as nat,
                token_view(default),
            ),
    {
        let found = self.try_previous_token();
        self.or_default(found, identifier, Side::Left, expected_argument_amount, default)
    }

    /// Takes the top of the operand stack, if the stack holds anything.
    fn pop(&mut self) -> (found: Option<Token>)
        requires
            old(self).wf(),
        ensures
            final(self).wf(),
            token_view(found) == top(old(self)@),
            final(self)@ == popped(old(self)@),
    {
        let ghost before = self.stack.deep_view();
        let found = self.stack.pop();
        proof {
            if before.len() > 0 {
                assert(self.stack.deep_view() == before.drop_last());
            } else {
                assert(self.stack.deep_view() == before);
            }
        }
        found
    }

    /// Puts a token on top of the operand stack.
    fn push(&mut self, token: Token)
        requires
            old(self).wf(),
        ensures
            final(self).wf(),
            final(self)@ == pushed(old(self)@, token@),
    {
        let ghost before = self.stack.deep_view();
        self.stack.push(token);
        assert(self.stack.deep_view() == before.push(token@));
    }

    /// Takes an operand off the stack. With an empty stack the default is
    /// given; without a default, the blank token is given and `identifier`,
    /// which takes `expected_argument_amount` operands, is reported to lack
    /// one.
    pub fn pop_stack(
        &mut self,
        identifier: &str,
        expected_argument_amount: u8,
        default: Option<Token>,
    ) -> (token: Token)
        requires
            old(self).wf(),
        ensures
            final(self).wf(),
            token@ == taken(old(self)@, token_view(default)),
            final(self)@ == after_taking(
                old(self)@,
                identifier@,
                expected_argument_amount as nat,
                token_view(default),
            ),
    {
        let found = self.pop();
        self.or_default(found, identifier, Side::Right, expected_argument_amount, default)
    }

    /// Fetches the two operands of the binary operator at hand: on the left
    /// the token before it in source order, on the right the top of the
    /// stack, which is used up in any case. With both there, the token on the
    /// left is marked as used up; else `operator` is reported to lack an
    /// operand, the left one first.
    pub fn get_surrounding_operator(&mut self, operator: &str) -> (pair: Option<(Token, Token)>)
        requires
            old(self).wf(),
        ensures
            final(self).wf(),
            pair_view(pair) == operands(old(self)@),
            final(self)@ == after_operands(old(self)@, operator@),
    {
        let a = self.try_previous_token();
        let b = self.pop();
        match a {
            None => {
                self.error(
                    EvalError::MissingOperand {
                        operator: String::from_str(operator),
                        side: Side::Left,
                        arity: 2,
                    },
                );
                None
            },
            Some(left) => match b {
                None => {
                    self.error(
                        EvalError::MissingOperand {
                            operator: String::from_str(operator),
                            side: Side::Right,
                            arity: 2,
                        },
                    );
                    None
                },
                Some(right) => {
                    self.skip_next = true;
                    Some((left, right))
                },
            },
        }
    }

    /// Evaluates `=`: the name on its left, taken as it stands, gets the value
    /// on top of the stack. Lookup is disabled while the operands are fetched
    /// and enabled afterwards whatever happened.
    fn assign(&mut self)
        requires
            old(self).wf(),
        ensures
            final(self).wf(),
            final(self)@ == after_assignment(old(self)@),
    {
        self.resolve_variables = false;
        match self.get_surrounding_operator("=") {
            None => {},
            Some((name, value)) => {
                if name.token_type != TokenType::Identifier {
                    self.error(mismatch_of("=", Expected::Identifier, name));
                } else {
                    match VariableType::of_token(value.token_type) {
                        None => {
                            self.error(mismatch_of("=", Expected::Literal, value));
                        },
                        Some(kind) => {
                            self.variables.insert(
                                name.value,
                                Variable { variable_type: kind, value: value.value },
                            );
                        },
                    }
                }
            },
        }
        self.resolve_variables = true;
    }

    /// Evaluates an operator. `=` assigns. `+`, `==`, `!=`, `>`, `<`, `>=`,
    /// `<=`, `&&` and `||` fetch their two operands and push the value that
    /// they give; a missing or unsuitable operand is a fault, and then nothing
    /// is pushed and no variable changes. Any other operator is unknown.
    pub fn parse_operator(&mut self, operator: String)
        requires
            old(self).wf(),
        ensures
            final(self).wf(),
            final(self)@ == after_operator(old(self)@, operator@),
    {
        if is_text(operator.as_str(), "=") {
            self.assign();
        } else if binary(operator.as_str()) {
            match self.get_surrounding_operator(operator.as_str()) {
                None => {},
                Some((left, right)) => match binary_outcome(operator.as_str(), left, right) {
                    Ok(value) => {
                        self.push(value);
                    },
                    Err(fault) => {
                        self.error(fault);
                    },
                },
            }
        } else {
            self.error(EvalError::UnknownOperator { operator });
        }
    }

    /// Evaluates an identifier. `print` takes the top of the stack, or the
    /// empty string if the stack is empty, and enters its text in the journal
    /// as printed: a number without the zeros at its start, a Boolean marked
    /// for emphasis. Any other identifier is looked up and its value pushed;
    /// one that names no variable is a fault.
    pub fn parse_identifier(&mut self, identifier: String)
        requires
            old(self).wf(),
        ensures
            final(self).wf(),
            final(self)@ == after_identifier(old(self)@, identifier@),
    {
        if is_text(identifier.as_str(), "print") {
            let token = self.pop_stack(
                "print",
                1,
                Some(Token { token_type: TokenType::String, value: String::new() }),
            );
            let emphasized = token.token_type == TokenType::Boolean;
            let text = if token.token_type == TokenType::Number {
                strip_zeros(token.value.as_str())
            } else {
                token.value
            };
            let ghost before = self.events.deep_view();
            let event = Event::Printed { text, emphasized };
            self.events.push(event);
            assert(self.events.deep_view() == before.push(event@));
        } else {
            match self.try_parse_variable(&identifier) {
                Some(value) => {
                    self.push(value);
                },
                None => {
                    self.error(EvalError::UnknownIdentifier { name: identifier });
                },
            }
        }
    }

    /// Comes to the token at place `index` of the line at hand.
    fn visit(&mut self, index: usize)
        requires
            old(self).wf(),
            index < old(self)@.tokens_on_line.len(),
        ensures
            final(self).wf(),
            final(self)@ == after_token(old(self)@, index as nat),
            final(self)@.tokens_on_line == old(self)@.tokens_on_line,
            final(self)@.line == old(self)@.line,
    {
        if self.should_abort {
            return;
        }
        if self.skip_next {
            self.skip_next = false;
            return;
        }
        let token = self.tokens_on_line[index].clone();
        self.current_token = token.clone();
        self.index = index;
        match token.token_type {
            TokenType::Identifier => {
                self.parse_identifier(token.value);
            },
            TokenType::Operator => {
                self.parse_operator(token.value);
            },
            TokenType::Symbol => {},
            TokenType::Number => {
                self.push(token);
            },
            TokenType::String => {
                self.push(token);
            },
            TokenType::Boolean => {
                self.push(token);
            },
        }
    }

    /// Evaluates one line, which is line `line` of its program counted from
    /// zero. Its tokens are come to from the last back to the first. Nothing
    /// happens while evaluation is stopped.
    pub fn parse_line(&mut self, tokens: &Vec<Token>, line: usize)
        requires
            old(self).wf(),
            line < usize::MAX,
        ensures
            final(self).wf(),
            final(self)@ == after_line(old(self)@, tokens.deep_view(), line as nat),
    {
        if self.should_abort {
            return;
        }
        self.tokens_on_line = copy_tokens(tokens);
        self.line = line;
        self.skip_next = false;
        let ghost goal = after_line(old(self)@, tokens.deep_view(), line as nat);
        let mut remaining: usize = tokens.len();
        assert(tokens.deep_view().len() == tokens.len());
        while remaining > 0
            invariant
                self.wf(),
                remaining <= tokens.len(),
                self@.tokens_on_line.len() == tokens.len(),
                after_tokens(self@, remaining as nat) == goal,
            decreases remaining,
        {
            remaining -= 1;
            self.visit(remaining);
        }
    }

    /// Evaluates a program line by line, in order. The variables and the
    /// operand stack carry over from line to line. A fault stops evaluation:
    /// what was printed and assigned before it stays, and nothing after it is
    /// evaluated.
    pub fn parse(&mut self, tokens: LexedTokenLines)
        requires
            old(self).wf(),
        ensures
            final(self).wf(),
            final(self)@ == after_program(old(self)@, tokens.deep_view()),
    {
        let ghost program = tokens.deep_view();
        let mut line: usize = 0;
        while line < tokens.len()
            invariant
                self.wf(),
                line <= tokens.len(),
                program == tokens.deep_view(),
                after_lines(self@, program, line as nat) == after_program(old(self)@, program),
            decreases tokens.len() - line,
        {
            assert(program[line as int] == tokens[line as int].deep_view());
            self.parse_line(&tokens[line], line);
            line += 1;
        }
    }

    /// Whether a fault has stopped evaluation.
    pub fn aborted(&self) -> (stopped: bool)
        ensures
            stopped == self@.should_abort,
    {
        self.should_abort
    }

    /// Lifts the stop, so that evaluation can go on with what comes next.
    pub fn resume(&mut self)
        requires
            old(self).wf(),
        ensures
            final(self).wf(),
            final(self)@ == (ParserView { should_abort: false, ..old(self)@ }),
    {
        self.should_abort = false;
    }

    /// Hands out the journal and empties it.
    pub fn take_events(&mut self) -> (events: Vec<Event>)
        requires
            old(self).wf(),
        ensures
            final(self).wf(),
            events.deep_view() == old(self)@.events,
            final(self)@ == (ParserView { events: Seq::empty(), ..old(self)@ }),
    {
        let mut events: Vec<Event> = Vec::new();
        std::mem::swap(&mut self.events, &mut events);
        assert(self.events.deep_view() == Seq::<EventView>::empty());
        events
    }

    /// The value of the variable `name`, if there is such a variable.
    pub fn variable(&self, name: &String) -> (found: Option<Variable>)
        requires
            self.wf(),
        ensures
            match found {
                Some(variable) => self@.variables.contains_key(name@) && variable@
                    == self@.variables[name@],
                None => !self@.variables.contains_key(name@),
            },
    {
        self.variables.get(name)
    }

    /// The number of operands on the stack.
    pub fn stack_depth(&self) -> (depth: usize)
        ensures
            depth == self@.stack.len(),
    {
        self.stack.len()
    }
}

} // verus!
