//! Laws of the language, proved of the evaluation that `semantics` states.

use vstd::prelude::*;
use crate::fault::{EvalErrorView, Expected};
use crate::lexer::{TokenType, TokenView};
use crate::number::{decimal_text, lemma_digits_text};
use crate::parser::value_kind;
use crate::semantics::{
    accepts, after_assignment, after_binary, after_identifier, after_line, after_lines,
    after_operator, after_program, after_token, after_tokens, apply_binary, at_line, fits,
    int64, is_binary, is_logical, leading_zeros, lookup, mismatch, operands, popped, previous,
    printed_text, pushed, sum, top, without_leading_zeros, EventView, ParserView,
};
use crate::table::VariableView;

verus! {

/// The identifier token with the text `name`.
pub open spec fn identifier(name: Seq<char>) -> TokenView {
    TokenView { kind: TokenType::Identifier, text: name }
}

/// The operator token with the text `operator`.
pub open spec fn operator(operator: Seq<char>) -> TokenView {
    TokenView { kind: TokenType::Operator, text: operator }
}

/// The number token with the text `text`.
pub open spec fn number(text: Seq<char>) -> TokenView {
    TokenView { kind: TokenType::Number, text }
}

/// What the texts of the operators and of `print` are, character by
/// character.
proof fn lemma_words()
    ensures
        "+"@ == seq!['+'],
        "="@ == seq!['='],
        "=="@ == seq!['=', '='],
        "!="@ == seq!['!', '='],
        ">"@ == seq!['>'],
        "<"@ == seq!['<'],
        ">="@ == seq!['>', '='],
        "<="@ == seq!['<', '='],
        "&&"@ == seq!['&', '&'],
        "||"@ == seq!['|', '|'],
        "print"@ == seq!['p', 'r', 'i', 'n', 't'],
{
    reveal_strlit("+");
    reveal_strlit("=");
    reveal_strlit("==");
    reveal_strlit("!=");
    reveal_strlit(">");
    reveal_strlit("<");
    reveal_strlit(">=");
    reveal_strlit("<=");
    reveal_strlit("&&");
    reveal_strlit("||");
    reveal_strlit("print");
    assert("+"@ =~= seq!['+']);
    assert("="@ =~= seq!['=']);
    assert("=="@ =~= seq!['=', '=']);
    assert("!="@ =~= seq!['!', '=']);
    assert(">"@ =~= seq!['>']);
    assert("<"@ =~= seq!['<']);
    assert(">="@ =~= seq!['>', '=']);
    assert("<="@ =~= seq!['<', '=']);
    assert("&&"@ =~= seq!['&', '&']);
    assert("||"@ =~= seq!['|', '|']);
    assert("print"@ =~= seq!['p', 'r', 'i', 'n', 't']);
}

/// The canonical decimal text of an integer is printed as it is.
pub proof fn lemma_canonical_text_is_printed_whole(n: int)
    ensures
        without_leading_zeros(decimal_text(n)) == decimal_text(n),
{
    let text = decimal_text(n);
    if n < 0 {
        lemma_digits_text((-n) as nat);
        assert(text[0] == '-');
        assert(leading_zeros(text) == 0);
    } else if n == 0 {
        lemma_digits_text(0);
    } else {
        lemma_digits_text(n as nat);
        assert(leading_zeros(text) == 0);
    }
    if text != seq!['0'] {
        assert(text.skip(0) == text);
    }
}

/// `+` on two numbers gives their sum: where the left operand denotes `a` and
/// the right one `b`, both within 64 bits, the value is the number whose text
/// is the canonical decimal text of `a + b`.
pub proof fn law_plus_adds(left: Seq<char>, right: Seq<char>, a: int, b: int)
    requires
        int64(left) == Some(a),
        int64(right) == Some(b),
    ensures
        apply_binary("+"@, number(left), number(right)) == Ok::<TokenView, EvalErrorView>(
            number(decimal_text(a + b)),
        ),
{
    lemma_words();
}

/// Printing a sum prints the sum: the line `print a + b`, where the numerals
/// `a` and `b` denote integers within 64 bits, enters the canonical decimal
/// text of their sum in the journal as printed, and leaves the operand stack
/// and the variables as they were.
pub proof fn law_printed_sum(
    s: ParserView,
    line: nat,
    left: Seq<char>,
    right: Seq<char>,
    a: int,
    b: int,
)
    requires
        !s.should_abort,
        int64(left) == Some(a),
        int64(right) == Some(b),
    ensures
        ({
            let tokens = seq![identifier("print"@), number(left), operator("+"@), number(right)];
            let after = after_line(s, tokens, line);
            &&& after.events == s.events.push(
                EventView::Printed { text: decimal_text(a + b), emphasized: false },
            )
            &&& after.stack == s.stack
            &&& after.variables == s.variables
            &&& !after.should_abort
        }),
{
    lemma_words();
    law_plus_adds(left, right, a, b);
    lemma_canonical_text_is_printed_whole(a + b);
    let tokens = seq![identifier("print"@), number(left), operator("+"@), number(right)];
    let s0 = at_line(s, tokens, line);
    let s1 = after_token(s0, 3);
    assert(s1.stack == s.stack.push(number(right)));
    let s2 = after_token(s1, 2);
    let here = ParserView { current_token: tokens[2], index: 2, ..s1 };
    assert(previous(here) == Some(number(left)));
    assert(top(here) == Some(number(right)));
    assert(operands(here) == Some((number(left), number(right))));
    assert(s2 == after_operator(here, "+"@));
    assert(s2 == after_binary(here, "+"@));
    assert(popped(here).stack == s.stack);
    assert(s2.stack == s.stack.push(number(decimal_text(a + b))));
    assert(s2.skip_next);
    let s3 = after_token(s2, 1);
    assert(s3 == ParserView { skip_next: false, ..s2 });
    let s4 = after_token(s3, 0);
    assert(s4 == after_identifier(ParserView { current_token: tokens[0], index: 0, ..s3 }, "print"@));
    assert(s4.stack == s.stack);
    reveal_with_fuel(after_tokens, 5);
    assert(after_line(s, tokens, line) == s4);
}

/// `+` joins texts in order: with a string among two operands that are
/// strings or numbers, the value is the string made of the left text followed
/// by the right text.
pub proof fn law_plus_joins_in_order(left: TokenView, right: TokenView)
    requires
        fits(Expected::StringOrNumber, left.kind),
        fits(Expected::StringOrNumber, right.kind),
        left.kind == TokenType::String || right.kind == TokenType::String,
    ensures
        apply_binary("+"@, left, right) == Ok::<TokenView, EvalErrorView>(
            TokenView { kind: TokenType::String, text: left.text + right.text },
        ),
{
    lemma_words();
}

/// Assignment stores the text as it was written: the line `name = value`,
/// where the value is a string, a number or a Boolean, gives the variable
/// `name` the kind and the very text of the value, whatever a variable of
/// that name held before. Nothing is printed, nothing fails, and the operand
/// stack and the other variables stay as they were.
pub proof fn law_assignment_keeps_text(
    s: ParserView,
    line: nat,
    name: Seq<char>,
    value: TokenView,
)
    requires
        !s.should_abort,
        value_kind(value.kind) is Some,
    ensures
        ({
            let tokens = seq![identifier(name), operator("="@), value];
            let after = after_line(s, tokens, line);
            &&& after.variables == s.variables.insert(
                name,
                VariableView { kind: value_kind(value.kind)->0, text: value.text },
            )
            &&& after.events == s.events
            &&& after.stack == s.stack
            &&& !after.should_abort
        }),
{
    lemma_words();
    let tokens = seq![identifier(name), operator("="@), value];
    let s0 = at_line(s, tokens, line);
    let s1 = after_token(s0, 2);
    assert(s1 == pushed(ParserView { current_token: value, index: 2, ..s0 }, value));
    let here = ParserView { current_token: tokens[1], index: 1, ..s1 };
    let quiet = ParserView { resolve_variables: false, ..here };
    assert(previous(quiet) == Some(identifier(name)));
    assert(top(quiet) == Some(value));
    assert(operands(quiet) == Some((identifier(name), value)));
    let s2 = after_token(s1, 1);
    assert(s2 == after_assignment(here));
    assert(popped(quiet).stack == s.stack);
    assert(s2.stack == s.stack);
    assert(s2.skip_next);
    let s3 = after_token(s2, 0);
    assert(s3 == ParserView { skip_next: false, ..s2 });
    reveal_with_fuel(after_tokens, 4);
    assert(after_line(s, tokens, line) == s3);
}

/// Printing a value prints its text: the line `print value`, where the value
/// is a string, a number or a Boolean, enters the value's text in the journal
/// as printed, a number without the zeros at its start and a Boolean marked
/// for emphasis, and leaves the operand stack and the variables as they were.
pub proof fn law_print_literal(s: ParserView, line: nat, value: TokenView)
    requires
        !s.should_abort,
        value_kind(value.kind) is Some,
    ensures
        ({
            let after = after_line(s, seq![identifier("print"@), value], line);
            &&& after.events == s.events.push(
                EventView::Printed {
                    text: printed_text(value),
                    emphasized: value.kind == TokenType::Boolean,
                },
            )
            &&& after.stack == s.stack
            &&& after.variables == s.variables
            &&& !after.should_abort
        }),
{
    let tokens = seq![identifier("print"@), value];
    let s0 = at_line(s, tokens, line);
    let s1 = after_token(s0, 1);
    assert(s1 == pushed(ParserView { current_token: value, index: 1, ..s0 }, value));
    let s2 = after_token(s1, 0);
    assert(s2 == after_identifier(ParserView { current_token: tokens[0], index: 0, ..s1 }, "print"@));
    assert(s1.stack.drop_last() == s.stack);
    assert(s2.stack == s.stack);
    reveal_with_fuel(after_tokens, 3);
    assert(after_line(s, tokens, line) == s2);
}

/// Printing reads a variable and leaves it alone: the line `print name`,
/// where `name` is a variable and lookup is enabled, enters the variable's
/// text in the journal as printed, a number without the zeros at its start,
/// and the variables and the operand stack stay as they were.
pub proof fn law_print_leaves_variables(s: ParserView, line: nat, name: Seq<char>)
    requires
        !s.should_abort,
        s.resolve_variables,
        s.variables.contains_key(name),
        name != "print"@,
    ensures
        ({
            let tokens = seq![identifier("print"@), identifier(name)];
            let after = after_line(s, tokens, line);
            let value = lookup(s, name)->0;
            &&& after.events == s.events.push(
                EventView::Printed {
                    text: printed_text(value),
                    emphasized: value.kind == TokenType::Boolean,
                },
            )
            &&& after.variables == s.variables
            &&& after.stack == s.stack
            &&& !after.should_abort
        }),
{
    lemma_words();
    let tokens = seq![identifier("print"@), identifier(name)];
    let value = lookup(s, name)->0;
    let s0 = at_line(s, tokens, line);
    let s1 = after_token(s0, 1);
    assert(s1 == pushed(ParserView { current_token: tokens[1], index: 1, ..s0 }, value));
    let s2 = after_token(s1, 0);
    assert(s2 == after_identifier(ParserView { current_token: tokens[0], index: 0, ..s1 }, "print"@));
    assert(s1.stack.drop_last() == s.stack);
    assert(s2.stack == s.stack);
    reveal_with_fuel(after_tokens, 3);
    assert(after_line(s, tokens, line) == s2);
}

/// Assigning a variable to itself changes nothing: the line `name = name`,
/// where `name` is a variable and lookup is enabled, does not fail and leaves
/// the variables, the operand stack and the journal as they were.
pub proof fn law_self_assignment(s: ParserView, line: nat, name: Seq<char>)
    requires
        !s.should_abort,
        s.resolve_variables,
        s.variables.contains_key(name),
        name != "print"@,
    ensures
        ({
            let tokens = seq![identifier(name), operator("="@), identifier(name)];
            let after = after_line(s, tokens, line);
            &&& after.variables == s.variables
            &&& after.events == s.events
            &&& after.stack == s.stack
            &&& !after.should_abort
        }),
{
    lemma_words();
    let tokens = seq![identifier(name), operator("="@), identifier(name)];
    let value = lookup(s, name)->0;
    let s0 = at_line(s, tokens, line);
    let s1 = after_token(s0, 2);
    assert(s1 == pushed(ParserView { current_token: tokens[2], index: 2, ..s0 }, value));
    let here = ParserView { current_token: tokens[1], index: 1, ..s1 };
    let quiet = ParserView { resolve_variables: false, ..here };
    assert(previous(quiet) == Some(identifier(name)));
    assert(top(quiet) == Some(value));
    assert(operands(quiet) == Some((identifier(name), value)));
    assert(value_kind(value.kind) == Some(s.variables[name].kind));
    let s2 = after_token(s1, 1);
    assert(s2 == after_assignment(here));
    assert(popped(quiet).stack == s.stack);
    assert(s2.stack == s.stack);
    assert(s2.variables =~= s.variables);
    let s3 = after_token(s2, 0);
    assert(s3 == ParserView { skip_next: false, ..s2 });
    reveal_with_fuel(after_tokens, 4);
    assert(after_line(s, tokens, line) == s3);
}

/// An unknown identifier stops the line and is reported with the line's
/// number counted from one: the line that is the identifier `name` alone,
/// where `name` is neither `print` nor a variable that lookup finds, enters
/// the fault in the journal and changes neither stack nor variables.
pub proof fn law_unknown_identifier(s: ParserView, line: nat, name: Seq<char>)
    requires
        !s.should_abort,
        name != "print"@,
        lookup(s, name) is None,
    ensures
        ({
            let after = after_line(s, seq![identifier(name)], line);
            &&& after.should_abort
            &&& after.events == s.events.push(
                EventView::Failed {
                    error: EvalErrorView::UnknownIdentifier { name },
                    line: line + 1,
                },
            )
            &&& after.variables == s.variables
            &&& after.stack == s.stack
        }),
{
    let tokens = seq![identifier(name)];
    let s0 = at_line(s, tokens, line);
    let s1 = after_token(s0, 0);
    reveal_with_fuel(after_tokens, 2);
    assert(after_line(s, tokens, line) == s1);
}

/// While evaluation is stopped, no token changes the state.
pub proof fn law_stopped_tokens_do_nothing(s: ParserView, count: nat)
    requires
        s.should_abort,
    ensures
        after_tokens(s, count) == s,
    decreases count,
{
    if count > 0 {
        law_stopped_tokens_do_nothing(s, (count - 1) as nat);
    }
}

/// While evaluation is stopped, no line of a program changes the state.
pub proof fn law_stopped_lines_do_nothing(s: ParserView, program: Seq<Seq<TokenView>>, from: nat)
    requires
        s.should_abort,
    ensures
        after_lines(s, program, from) == s,
    decreases program.len() - from,
{
    if from < program.len() {
        law_stopped_lines_do_nothing(s, program, from + 1);
    }
}

/// A fault comes before any change: where an operator ends in a fault, no
/// variable has changed and no value was pushed. The stack is as it was, or,
/// where the operator got as far as fetching its operands, without its top.
/// The journal has one more entry, the fault, with the number of the line at
/// hand counted from one.
pub proof fn law_fault_before_change(s: ParserView, operator: Seq<char>)
    requires
        !s.should_abort,
        after_operator(s, operator).should_abort,
    ensures
        ({
            let after = after_operator(s, operator);
            &&& after.variables == s.variables
            &&& after.stack == s.stack || after.stack == popped(s).stack
            &&& after.events.len() == s.events.len() + 1
            &&& after.events.drop_last() == s.events
            &&& after.events.last() is Failed
            &&& after.events.last()->line == s.line + 1
        }),
{
    let after = after_operator(s, operator);
    if operator == "="@ {
        let quiet = ParserView { resolve_variables: false, ..s };
        assert(popped(quiet).stack == popped(s).stack);
        assert(after.events.drop_last() == s.events);
    } else if is_binary(operator) {
        assert(after.events.drop_last() == s.events);
    } else {
        assert(after.events.drop_last() == s.events);
    }
}

/// A mismatch names its operator: where a binary operator does not accept an
/// operand's kind, the fault is a mismatch that carries the operator, what it
/// accepts, and the operand, the left one first.
pub proof fn law_mismatch_names_operator(operator: Seq<char>, left: TokenView, right: TokenView)
    requires
        is_binary(operator),
        !fits(accepts(operator), left.kind) || !fits(accepts(operator), right.kind),
    ensures
        apply_binary(operator, left, right) == Err::<TokenView, EvalErrorView>(
            mismatch(
                operator,
                accepts(operator),
                if !fits(accepts(operator), left.kind) {
                    left
                } else {
                    right
                },
            ),
        ),
{
}

/// `&&` and `||` take Booleans only: with an operand of another kind they
/// give a mismatch that names the operator and says that a Boolean was
/// expected.
pub proof fn law_logical_rejects_other_kinds(
    operator: Seq<char>,
    left: TokenView,
    right: TokenView,
)
    requires
        is_logical(operator),
        left.kind != TokenType::Boolean || right.kind != TokenType::Boolean,
    ensures
        apply_binary(operator, left, right) == Err::<TokenView, EvalErrorView>(
            mismatch(
                operator,
                Expected::Boolean,
                if left.kind != TokenType::Boolean {
                    left
                } else {
                    right
                },
            ),
        ),
{
    lemma_words();
}

/// `+` takes strings and numbers only: with a Boolean, an identifier, an
/// operator or a symbol as an operand it gives a mismatch that names `+`.
pub proof fn law_plus_rejects_other_kinds(left: TokenView, right: TokenView)
    requires
        !fits(Expected::StringOrNumber, left.kind) || !fits(Expected::StringOrNumber, right.kind),
    ensures
        apply_binary("+"@, left, right) == Err::<TokenView, EvalErrorView>(
            mismatch(
                "+"@,
                Expected::StringOrNumber,
                if !fits(Expected::StringOrNumber, left.kind) {
                    left
                } else {
                    right
                },
            ),
        ),
{
    lemma_words();
}

/// The state after the tokens of the line at hand from place `count - 1` back
/// to place `stop`.
pub open spec fn after_tokens_down_to(s: ParserView, count: nat, stop: nat) -> ParserView
    decreases count,
{
    if count <= stop {
        s
    } else {
        after_tokens_down_to(after_token(s, (count - 1) as nat), (count - 1) as nat, stop)
    }
}

/// The state on coming to the token at place `index` of line `line` of a
/// program: the lines before that line have been evaluated, and so have the
/// tokens behind that token on its line.
pub open spec fn on_coming_to(
    s: ParserView,
    program: Seq<Seq<TokenView>>,
    line: nat,
    index: nat,
) -> ParserView {
    after_tokens_down_to(
        at_line(after_program(s, program.take(line as int)), program[line as int], line),
        program[line as int].len(),
        index + 1,
    )
}

/// Evaluating the tokens of a line can be halted at any place and taken up
/// again there.
pub proof fn lemma_tokens_split(s: ParserView, count: nat, stop: nat)
    requires
        stop <= count,
    ensures
        after_tokens(s, count) == after_tokens(after_tokens_down_to(s, count, stop), stop),
    decreases count,
{
    if count > stop {
        lemma_tokens_split(after_token(s, (count - 1) as nat), (count - 1) as nat, stop);
    }
}

/// Evaluating the lines of a program can be halted before any line and taken
/// up again there.
pub proof fn lemma_lines_split(s: ParserView, program: Seq<Seq<TokenView>>, from: nat, k: nat)
    requires
        from <= k <= program.len(),
    ensures
        after_lines(s, program, from) == after_lines(
            after_lines(s, program.take(k as int), from),
            program,
            k,
        ),
    decreases k - from,
{
    let head = program.take(k as int);
    if from < k {
        assert(head[from as int] == program[from as int]);
        lemma_lines_split(after_line(s, program[from as int], from), program, from + 1, k);
    }
}

/// No token changes the line at hand or its number.
pub proof fn lemma_token_keeps_line(s: ParserView, index: nat)
    ensures
        after_token(s, index).line == s.line,
        after_token(s, index).tokens_on_line == s.tokens_on_line,
{
}

/// The tokens of a line change neither the line at hand nor its number, and
/// do nothing while evaluation is stopped.
pub proof fn lemma_tokens_down_to(s: ParserView, count: nat, stop: nat)
    ensures
        after_tokens_down_to(s, count, stop).line == s.line,
        after_tokens_down_to(s, count, stop).tokens_on_line == s.tokens_on_line,
        s.should_abort ==> after_tokens_down_to(s, count, stop) == s,
    decreases count,
{
    if count > stop {
        lemma_token_keeps_line(s, (count - 1) as nat);
        lemma_tokens_down_to(after_token(s, (count - 1) as nat), (count - 1) as nat, stop);
    }
}

/// An unknown identifier stops the program where it stands. Where evaluation
/// comes to the token at place `index` of line `line` with nothing failed so
/// far, and the token is an identifier that is neither `print` nor a variable
/// that lookup finds, the run ends in the state that this one fault leaves:
/// evaluation is stopped, the journal has one more entry, the fault with the
/// line's number counted from one, and the stack and the variables are as
/// they were on coming to the token. What came before is kept, and no token
/// behind the fault is evaluated, on this line or on a later one.
pub proof fn law_unknown_identifier_stops_program(
    s: ParserView,
    program: Seq<Seq<TokenView>>,
    line: nat,
    index: nat,
)
    requires
        line < program.len(),
        index < program[line as int].len(),
        !on_coming_to(s, program, line, index).should_abort,
        !on_coming_to(s, program, line, index).skip_next,
        program[line as int][index as int].kind == TokenType::Identifier,
        program[line as int][index as int].text != "print"@,
        lookup(on_coming_to(s, program, line, index), program[line as int][index as int].text)
            is None,
    ensures
        ({
            let at = on_coming_to(s, program, line, index);
            let after = after_program(s, program);
            &&& after.should_abort
            &&& after.events == at.events.push(
                EventView::Failed {
                    error: EvalErrorView::UnknownIdentifier {
                        name: program[line as int][index as int].text,
                    },
                    line: line + 1,
                },
            )
            &&& after.variables == at.variables
            &&& after.stack == at.stack
        }),
{
    let tokens = program[line as int];
    let token = tokens[index as int];
    let before = after_program(s, program.take(line as int));
    let start = at_line(before, tokens, line);
    let at = on_coming_to(s, program, line, index);
    lemma_tokens_down_to(start, tokens.len(), index + 1);
    assert(!before.should_abort);
    assert(at.line == line);
    assert(at.tokens_on_line == tokens);
    let stopped = after_token(at, index);
    assert(stopped == after_identifier(ParserView { current_token: token, index, ..at }, token.text));
    assert(stopped.should_abort);
    // the rest of the line
    lemma_tokens_split(start, tokens.len(), index + 1);
    assert(after_tokens(at, index + 1) == after_tokens(stopped, index));
    law_stopped_tokens_do_nothing(stopped, index);
    assert(after_line(before, tokens, line) == stopped);
    // the rest of the program
    lemma_lines_split(s, program, 0, line);
    assert(after_program(s, program) == after_lines(before, program, line));
    law_stopped_lines_do_nothing(stopped, program, line + 1);
}

} // verus!
