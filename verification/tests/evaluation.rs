use postfix_interp::fault::{EvalError, Expected, Side};
use postfix_interp::lexer::{Lexer, Token, TokenType};
use postfix_interp::parser::{binary_outcome, strip_zeros, Event, Parser, VariableType};
use postfix_interp::table::Variable;

fn token(token_type: TokenType, value: &str) -> Token {
    Token { token_type, value: value.to_string() }
}

fn num(value: &str) -> Token {
    token(TokenType::Number, value)
}

fn text(value: &str) -> Token {
    token(TokenType::String, value)
}

fn boolean(value: &str) -> Token {
    token(TokenType::Boolean, value)
}

fn ident(value: &str) -> Token {
    token(TokenType::Identifier, value)
}

fn run(parser: &mut Parser, code: &str) -> Vec<Event> {
    let tokens = Lexer::default().lex_code(code.to_string());
    parser.parse(tokens);
    parser.take_events()
}

fn output(code: &str) -> Vec<Event> {
    run(&mut Parser::default(), code)
}

fn printed(text: &str) -> Event {
    Event::Printed { text: text.to_string(), emphasized: false }
}

fn emphasized(text: &str) -> Event {
    Event::Printed { text: text.to_string(), emphasized: true }
}

fn failed(error: EvalError, line: usize) -> Event {
    Event::Failed { error, line }
}

fn mismatch(operator: &str, expected: Expected, got: Token) -> EvalError {
    EvalError::TypeMismatch { operator: operator.to_string(), expected, got }
}

fn missing(operator: &str, side: Side, arity: u8) -> EvalError {
    EvalError::MissingOperand { operator: operator.to_string(), side, arity }
}

fn variable(parser: &Parser, name: &str) -> Option<Variable> {
    parser.variable(&name.to_string())
}

fn number(value: &str) -> Option<Variable> {
    Some(Variable { variable_type: VariableType::Number, value: value.to_string() })
}

#[test]
fn sum_of_two_variables_is_assigned_and_printed() {
    let mut parser = Parser::default();
    let events = run(&mut parser, "x = 3\ny = 4\nz = x + y\nprint z");
    assert_eq!(events, vec![printed("7")]);
    assert_eq!(variable(&parser, "x"), number("3"));
    assert_eq!(variable(&parser, "y"), number("4"));
    assert_eq!(variable(&parser, "z"), number("7"));
    assert!(!parser.should_abort);
    assert_eq!(parser.stack_depth(), 0);
}

#[test]
fn operator_behind_both_operands_lacks_its_right_operand() {
    let mut parser = Parser::default();
    let events = run(&mut parser, "x = 3\ny = 4\nz = x y +\nprint z");
    assert_eq!(events, vec![failed(missing("+", Side::Right, 2), 3)]);
    assert!(parser.should_abort);
    assert_eq!(variable(&parser, "x"), number("3"));
    assert_eq!(variable(&parser, "y"), number("4"));
    assert_eq!(variable(&parser, "z"), None);
}

#[test]
fn operator_behind_two_strings_lacks_its_right_operand() {
    assert_eq!(output("\"x\" \"y\" +"), vec![failed(missing("+", Side::Right, 2), 1)]);
    assert_eq!(output("1 2 +"), vec![failed(missing("+", Side::Right, 2), 1)]);
}

#[test]
fn printing_a_sum_prints_the_sum() {
    assert_eq!(output("print 2 + 3"), vec![printed("5")]);
    assert_eq!(output("print -2 + 3"), vec![printed("1")]);
    assert_eq!(output("print 2 + -3"), vec![printed("-1")]);
    assert_eq!(output("print 0 + 0"), vec![printed("0")]);
    assert_eq!(output("print 007 + 010"), vec![printed("17")]);
    assert_eq!(output("print 999 + 1"), vec![printed("1000")]);
}

#[test]
fn sum_is_exact_at_the_ends_of_the_range() {
    assert_eq!(
        output("print 9223372036854775807 + 9223372036854775807"),
        vec![printed("18446744073709551614")]
    );
    assert_eq!(
        output("print -9223372036854775808 + -9223372036854775808"),
        vec![printed("-18446744073709551616")]
    );
    assert_eq!(output("print 9223372036854775807 + -9223372036854775808"), vec![printed("-1")]);
}

#[test]
fn number_beyond_the_range_is_no_number_for_plus() {
    assert_eq!(
        output("print 9223372036854775808 + 1"),
        vec![failed(mismatch("+", Expected::Number, num("9223372036854775808")), 1)]
    );
    assert_eq!(
        output("print 1 + -9223372036854775809"),
        vec![failed(mismatch("+", Expected::Number, num("-9223372036854775809")), 1)]
    );
}

#[test]
fn concatenation_keeps_the_order() {
    assert_eq!(output("print \"x\" + \"y\""), vec![printed("xy")]);
    assert_eq!(output("print \"y\" + \"x\""), vec![printed("yx")]);
    assert_eq!(output("print \"n\" + 1"), vec![printed("n1")]);
    assert_eq!(output("print 1 + \"n\""), vec![printed("1n")]);
    assert_eq!(output("print 007 + \"n\""), vec![printed("007n")]);
}

#[test]
fn leading_zeros_are_stripped_at_print_time_only() {
    let mut parser = Parser::default();
    let events = run(&mut parser, "v = 007\nprint v\nprint v");
    assert_eq!(events, vec![printed("7"), printed("7")]);
    assert_eq!(variable(&parser, "v"), number("007"));
}

#[test]
fn printed_numerals_lose_the_zeros_at_their_start() {
    assert_eq!(strip_zeros("0"), "0");
    assert_eq!(strip_zeros("7"), "7");
    assert_eq!(strip_zeros("007"), "7");
    assert_eq!(strip_zeros("0070"), "70");
    assert_eq!(strip_zeros("000"), "");
    assert_eq!(strip_zeros("-007"), "-007");
    assert_eq!(strip_zeros(""), "");
    assert_eq!(output("print 0"), vec![printed("0")]);
    assert_eq!(output("print 0100"), vec![printed("100")]);
}

#[test]
fn strings_are_printed_as_they_are() {
    assert_eq!(output("print \"007\""), vec![printed("007")]);
    assert_eq!(output("print \"hello world\""), vec![printed("hello world")]);
}

#[test]
fn assignment_does_not_read_its_own_target() {
    let mut parser = Parser::default();
    let events = run(&mut parser, "x = 5\nx = x\nprint x");
    assert_eq!(events, vec![printed("5")]);
    assert_eq!(variable(&parser, "x"), number("5"));
    assert!(!parser.should_abort);
}

#[test]
fn assignment_overwrites() {
    let mut parser = Parser::default();
    let events = run(&mut parser, "x = 5\nx = \"five\"\nprint x\nx = true\nprint x");
    assert_eq!(events, vec![printed("five"), emphasized("true")]);
    assert_eq!(
        variable(&parser, "x"),
        Some(Variable { variable_type: VariableType::Boolean, value: "true".to_string() })
    );
}

#[test]
fn assignment_from_another_variable_copies_the_value() {
    let mut parser = Parser::default();
    let events = run(&mut parser, "x = 007\ny = x\nprint y");
    assert_eq!(events, vec![printed("7")]);
    assert_eq!(variable(&parser, "y"), number("007"));
}

#[test]
fn unknown_identifier_is_reported_with_its_line() {
    let mut parser = Parser::default();
    let events = run(&mut parser, "x = 1\n\n// note\nprint x\nprint y\nprint x");
    assert_eq!(
        events,
        vec![printed("1"), failed(EvalError::UnknownIdentifier { name: "y".to_string() }, 3)]
    );
    assert!(parser.should_abort);
}

#[test]
fn evaluation_goes_on_after_the_stop_is_lifted() {
    let mut parser = Parser::default();
    let events = run(&mut parser, "x = 1\nprint nope\nprint x");
    assert_eq!(
        events,
        vec![failed(EvalError::UnknownIdentifier { name: "nope".to_string() }, 2)]
    );
    assert!(parser.should_abort);
    assert_eq!(run(&mut parser, "print x"), vec![]);
    parser.should_abort = false;
    assert_eq!(run(&mut parser, "print x"), vec![printed("1")]);
    assert!(!parser.should_abort);
}

#[test]
fn unknown_identifier_stops_the_program_where_it_stands() {
    let mut parser = Parser::default();
    let events = run(&mut parser, "a = 1\nprint a\nb = 2 nope 3\nc = 4\nprint a");
    assert_eq!(
        events,
        vec![printed("1"), failed(EvalError::UnknownIdentifier { name: "nope".to_string() }, 3)]
    );
    assert!(parser.aborted());
    assert_eq!(variable(&parser, "a"), number("1"));
    assert_eq!(variable(&parser, "b"), None);
    assert_eq!(variable(&parser, "c"), None);
    assert_eq!(parser.stack_depth(), 1);
}

#[test]
fn aborted_tells_whether_evaluation_is_stopped() {
    let mut parser = Parser::default();
    assert!(!parser.aborted());
    assert_eq!(run(&mut parser, "print 1"), vec![printed("1")]);
    assert!(!parser.aborted());
    assert_eq!(
        run(&mut parser, "nope"),
        vec![failed(EvalError::UnknownIdentifier { name: "nope".to_string() }, 1)]
    );
    assert!(parser.aborted());
    parser.resume();
    assert!(!parser.aborted());
    parser.should_abort = true;
    assert!(parser.aborted());
}

#[test]
fn output_before_a_fault_stays() {
    let events = output("print \"a\"\nprint \"b\"\nnope\nprint \"c\"");
    assert_eq!(
        events,
        vec![
            printed("a"),
            printed("b"),
            failed(EvalError::UnknownIdentifier { name: "nope".to_string() }, 3),
        ]
    );
}

#[test]
fn type_mismatch_comes_before_any_change() {
    let mut parser = Parser::default();
    let events = run(&mut parser, "x = 1\ntrue + 1");
    assert_eq!(
        events,
        vec![failed(mismatch("+", Expected::StringOrNumber, boolean("true")), 2)]
    );
    assert_eq!(parser.stack_depth(), 0);
    assert_eq!(variable(&parser, "x"), number("1"));
    assert!(parser.should_abort);
}

#[test]
fn mismatch_on_the_right_names_the_right_operand() {
    assert_eq!(
        output("1 + true"),
        vec![failed(mismatch("+", Expected::StringOrNumber, boolean("true")), 1)]
    );
    assert_eq!(
        output("1 > \"a\""),
        vec![failed(mismatch(">", Expected::Number, text("a")), 1)]
    );
}

#[test]
fn boolean_operators_reject_other_operands() {
    assert_eq!(
        output("1 && true"),
        vec![failed(mismatch("&&", Expected::Boolean, num("1")), 1)]
    );
    assert_eq!(
        output("true || \"x\""),
        vec![failed(mismatch("||", Expected::Boolean, text("x")), 1)]
    );
}

#[test]
fn boolean_operators_combine_truth_values() {
    assert_eq!(output("print true && true"), vec![emphasized("true")]);
    assert_eq!(output("print true && false"), vec![emphasized("false")]);
    assert_eq!(output("print false && true"), vec![emphasized("false")]);
    assert_eq!(output("print false || false"), vec![emphasized("false")]);
    assert_eq!(output("print false || true"), vec![emphasized("true")]);
    assert_eq!(output("print true || false"), vec![emphasized("true")]);
}

#[test]
fn comparisons_order_numbers() {
    assert_eq!(output("print 2 > 1"), vec![emphasized("true")]);
    assert_eq!(output("print 1 > 2"), vec![emphasized("false")]);
    assert_eq!(output("print 1 < 2"), vec![emphasized("true")]);
    assert_eq!(output("print 2 < 2"), vec![emphasized("false")]);
    assert_eq!(output("print 2 >= 2"), vec![emphasized("true")]);
    assert_eq!(output("print 1 >= 2"), vec![emphasized("false")]);
    assert_eq!(output("print 2 <= 2"), vec![emphasized("true")]);
    assert_eq!(output("print 3 <= 2"), vec![emphasized("false")]);
    assert_eq!(output("print -3 < 2"), vec![emphasized("true")]);
    assert_eq!(output("print 010 > 9"), vec![emphasized("true")]);
    assert_eq!(
        output("print 170141183460469231731687303715884105727 > 9223372036854775808"),
        vec![emphasized("true")]
    );
}

#[test]
fn comparison_of_a_number_too_large_is_a_mismatch() {
    assert_eq!(
        output("print 170141183460469231731687303715884105728 > 1"),
        vec![failed(
            mismatch(">", Expected::Number, num("170141183460469231731687303715884105728")),
            1
        )]
    );
}

#[test]
fn equality_compares_kind_and_text() {
    assert_eq!(output("print 1 == 1"), vec![emphasized("true")]);
    assert_eq!(output("print 1 == 2"), vec![emphasized("false")]);
    assert_eq!(output("print 1 != 2"), vec![emphasized("true")]);
    assert_eq!(output("print 1 != 1"), vec![emphasized("false")]);
    assert_eq!(output("print \"a\" == \"a\""), vec![emphasized("true")]);
    assert_eq!(output("print \"1\" == 1"), vec![emphasized("false")]);
    assert_eq!(output("print \"1\" != 1"), vec![emphasized("true")]);
    assert_eq!(output("print 01 == 1"), vec![emphasized("false")]);
    assert_eq!(output("print true == true"), vec![emphasized("true")]);
    assert_eq!(output("print true == false"), vec![emphasized("false")]);
}

#[test]
fn equality_rejects_what_is_no_value() {
    assert_eq!(
        output("nope == 1"),
        vec![failed(mismatch("==", Expected::Literal, ident("nope")), 1)]
    );
}

#[test]
fn print_with_an_empty_stack_prints_an_empty_line() {
    assert_eq!(output("print"), vec![printed("")]);
}

#[test]
fn booleans_are_printed_with_emphasis() {
    assert_eq!(output("print true"), vec![emphasized("true")]);
    assert_eq!(output("print \"true\""), vec![printed("true")]);
    assert_eq!(output("print 1"), vec![printed("1")]);
}

#[test]
fn leftover_literals_stay_on_the_stack() {
    let mut parser = Parser::default();
    assert_eq!(run(&mut parser, "1 2 3"), vec![]);
    assert_eq!(parser.stack_depth(), 3);
    assert!(!parser.should_abort);
    assert_eq!(run(&mut parser, "print\nprint"), vec![printed("1"), printed("2")]);
    assert_eq!(parser.stack_depth(), 1);
}

#[test]
fn symbols_are_passed_over() {
    let mut parser = Parser::default();
    assert_eq!(run(&mut parser, "print ( 5 )"), vec![printed("5")]);
    assert_eq!(parser.stack_depth(), 0);
}

#[test]
fn operator_without_left_operand_is_reported() {
    assert_eq!(output("+ 1"), vec![failed(missing("+", Side::Left, 2), 1)]);
    assert_eq!(output("= 1"), vec![failed(missing("=", Side::Left, 2), 1)]);
}

#[test]
fn operator_without_right_operand_is_reported() {
    assert_eq!(output("1 +"), vec![failed(missing("+", Side::Right, 2), 1)]);
    assert_eq!(output("x ="), vec![failed(missing("=", Side::Right, 2), 1)]);
}

#[test]
fn unknown_operator_is_reported() {
    assert_eq!(
        output("1 - 2"),
        vec![failed(EvalError::UnknownOperator { operator: "-".to_string() }, 1)]
    );
    assert_eq!(
        output("x += 2"),
        vec![failed(EvalError::UnknownOperator { operator: "+=".to_string() }, 1)]
    );
}

#[test]
fn assignment_needs_a_name_on_its_left() {
    let mut parser = Parser::default();
    assert_eq!(
        run(&mut parser, "5 = 6"),
        vec![failed(mismatch("=", Expected::Identifier, num("5")), 1)]
    );
    assert_eq!(variable(&parser, "5"), None);
}

#[test]
fn lookup_is_enabled_again_after_a_failed_assignment() {
    let mut parser = Parser::default();
    assert_eq!(run(&mut parser, "x = 1"), vec![]);
    assert_eq!(
        run(&mut parser, "5 = 6"),
        vec![failed(mismatch("=", Expected::Identifier, num("5")), 1)]
    );
    parser.should_abort = false;
    assert_eq!(run(&mut parser, "print x"), vec![printed("1")]);
}

#[test]
fn used_operand_mark_does_not_leak_into_the_next_run() {
    let mut parser = Parser::default();
    assert_eq!(
        run(&mut parser, "true + 1"),
        vec![failed(mismatch("+", Expected::StringOrNumber, boolean("true")), 1)]
    );
    parser.should_abort = false;
    assert_eq!(run(&mut parser, "print \"a\""), vec![printed("a")]);
}

#[test]
fn trailing_comments_are_not_printed() {
    assert_eq!(output("print \"a\" // trailing"), vec![printed("a")]);
    assert_eq!(output("print \"a\" # trailing"), vec![printed("a")]);
}

#[test]
fn variables_live_across_runs() {
    let mut parser = Parser::default();
    assert_eq!(run(&mut parser, "x = 41"), vec![]);
    assert_eq!(run(&mut parser, "y = x + 1"), vec![]);
    assert_eq!(run(&mut parser, "print y"), vec![printed("42")]);
}

#[test]
fn chained_operators_work_right_to_left() {
    assert_eq!(output("print 1 + 2 + 3"), vec![printed("6")]);
    assert_eq!(output("print \"a\" + 1 + 2"), vec![printed("a3")]);
    assert_eq!(
        output("print 1 + 2 == 3"),
        vec![failed(mismatch("+", Expected::StringOrNumber, boolean("false")), 1)]
    );
}

#[test]
fn binary_outcome_gives_values_and_faults() {
    assert_eq!(binary_outcome("+", num("2"), num("3")), Ok(num("5")));
    assert_eq!(binary_outcome("+", text("a"), num("3")), Ok(text("a3")));
    assert_eq!(binary_outcome("+", num("+2"), num("3")), Ok(num("5")));
    assert_eq!(binary_outcome("==", num("2"), num("2")), Ok(boolean("true")));
    assert_eq!(binary_outcome("!=", num("2"), num("2")), Ok(boolean("false")));
    assert_eq!(binary_outcome("<", num("2"), num("3")), Ok(boolean("true")));
    assert_eq!(binary_outcome("&&", boolean("true"), boolean("false")), Ok(boolean("false")));
    assert_eq!(
        binary_outcome("+", num("x"), num("3")),
        Err(mismatch("+", Expected::Number, num("x")))
    );
    assert_eq!(
        binary_outcome("+", num("2"), num("")),
        Err(mismatch("+", Expected::Number, num("")))
    );
    assert_eq!(
        binary_outcome("<", num("2"), num("-")),
        Err(mismatch("<", Expected::Number, num("-")))
    );
    assert_eq!(
        binary_outcome("||", boolean("yes"), boolean("true")),
        Err(mismatch("||", Expected::Boolean, boolean("yes")))
    );
    assert_eq!(
        binary_outcome("&&", boolean("true"), boolean("TRUE")),
        Err(mismatch("&&", Expected::Boolean, boolean("TRUE")))
    );
    assert_eq!(
        binary_outcome("=", num("2"), num("3")),
        Err(EvalError::UnknownOperator { operator: "=".to_string() })
    );
    assert_eq!(
        binary_outcome("*", num("2"), num("3")),
        Err(EvalError::UnknownOperator { operator: "*".to_string() })
    );
}
