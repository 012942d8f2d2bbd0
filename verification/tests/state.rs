use postfix_interp::fault::{EvalError, Side};
use postfix_interp::lexer::{Token, TokenType};
use postfix_interp::parser::{Event, Parser, VariableType};
use postfix_interp::table::{Variable, VariableTable};

fn token(token_type: TokenType, value: &str) -> Token {
    Token { token_type, value: value.to_string() }
}

fn num(value: &str) -> Token {
    token(TokenType::Number, value)
}

fn ident(value: &str) -> Token {
    token(TokenType::Identifier, value)
}

fn op(value: &str) -> Token {
    token(TokenType::Operator, value)
}

fn value(variable_type: VariableType, text: &str) -> Variable {
    Variable { variable_type, value: text.to_string() }
}

fn missing(operator: &str, side: Side, arity: u8, line: usize) -> Event {
    Event::Failed {
        error: EvalError::MissingOperand { operator: operator.to_string(), side, arity },
        line,
    }
}

#[test]
fn table_starts_empty() {
    let table = VariableTable::new();
    assert_eq!(table.get(&"x".to_string()), None);
}

#[test]
fn table_keeps_the_last_write() {
    let mut table = VariableTable::new();
    table.insert("x".to_string(), value(VariableType::Number, "1"));
    table.insert("y".to_string(), value(VariableType::String, "why"));
    assert_eq!(table.get(&"x".to_string()), Some(value(VariableType::Number, "1")));
    assert_eq!(table.get(&"y".to_string()), Some(value(VariableType::String, "why")));
    table.insert("x".to_string(), value(VariableType::Boolean, "true"));
    assert_eq!(table.get(&"x".to_string()), Some(value(VariableType::Boolean, "true")));
    assert_eq!(table.get(&"y".to_string()), Some(value(VariableType::String, "why")));
    assert_eq!(table.get(&"z".to_string()), None);
}

#[test]
fn kinds_convert() {
    assert_eq!(TokenType::from(VariableType::String), TokenType::String);
    assert_eq!(TokenType::from(VariableType::Number), TokenType::Number);
    assert_eq!(TokenType::from(VariableType::Boolean), TokenType::Boolean);
    assert_eq!(VariableType::of_token(TokenType::String), Some(VariableType::String));
    assert_eq!(VariableType::of_token(TokenType::Number), Some(VariableType::Number));
    assert_eq!(VariableType::of_token(TokenType::Boolean), Some(VariableType::Boolean));
    assert_eq!(VariableType::of_token(TokenType::Identifier), None);
    assert_eq!(VariableType::of_token(TokenType::Operator), None);
    assert_eq!(VariableType::of_token(TokenType::Symbol), None);
    assert_eq!(VariableType::default(), VariableType::String);
}

#[test]
fn new_parser_is_idle() {
    let mut parser = Parser::default();
    assert!(!parser.should_abort);
    assert_eq!(parser.stack_depth(), 0);
    assert_eq!(parser.take_events(), vec![]);
    assert_eq!(parser.try_next_token(), None);
    assert_eq!(parser.try_previous_token(), None);
    assert_eq!(parser.variable(&"x".to_string()), None);
}

#[test]
fn pop_stack_takes_the_top() {
    let mut parser = Parser::default();
    parser.parse_line(&vec![num("1"), num("2")], 0);
    assert_eq!(parser.stack_depth(), 2);
    assert_eq!(parser.pop_stack("f", 1, None), num("1"));
    assert_eq!(parser.pop_stack("f", 1, Some(num("9"))), num("2"));
    assert_eq!(parser.stack_depth(), 0);
    assert!(!parser.should_abort);
    assert_eq!(parser.take_events(), vec![]);
}

#[test]
fn pop_stack_falls_back_on_the_default() {
    let mut parser = Parser::default();
    assert_eq!(parser.pop_stack("f", 1, Some(num("9"))), num("9"));
    assert!(!parser.should_abort);
    assert_eq!(parser.take_events(), vec![]);
}

#[test]
fn pop_stack_without_default_reports_the_missing_operand() {
    let mut parser = Parser::default();
    assert_eq!(parser.pop_stack("f", 3, None), Token::default());
    assert!(parser.should_abort);
    assert_eq!(parser.take_events(), vec![missing("f", Side::Right, 3, 1)]);
}

#[test]
fn neighbours_are_found_in_source_order() {
    let mut parser = Parser::default();
    parser.parse_line(&vec![num("1"), num("2"), num("3")], 0);
    assert_eq!(parser.try_previous_token(), None);
    assert_eq!(parser.try_next_token(), Some(num("2")));
    assert_eq!(parser.next_token("f", 1, None), num("2"));
    assert_eq!(parser.previous_token("f", 1, Some(num("0"))), num("0"));
    assert!(!parser.should_abort);
    assert_eq!(parser.previous_token("f", 1, None), Token::default());
    assert!(parser.should_abort);
    assert_eq!(parser.take_events(), vec![missing("f", Side::Left, 1, 1)]);
}

#[test]
fn next_token_without_neighbour_reports_the_missing_operand() {
    let mut parser = Parser::default();
    parser.parse_line(&vec![num("1")], 4);
    assert_eq!(parser.try_next_token(), None);
    assert_eq!(parser.next_token("g", 2, Some(num("7"))), num("7"));
    assert_eq!(parser.next_token("g", 2, None), Token::default());
    assert_eq!(parser.take_events(), vec![missing("g", Side::Right, 2, 5)]);
}

#[test]
fn neighbours_that_name_variables_give_their_values() {
    let mut parser = Parser::default();
    parser.parse_line(&vec![ident("x"), op("="), num("5")], 0);
    parser.parse_line(&vec![num("1"), ident("x"), ident("y")], 1);
    assert!(parser.should_abort);
    parser.should_abort = false;
    parser.parse_line(&vec![num("1"), ident("x")], 2);
    assert_eq!(parser.try_next_token(), Some(num("5")));
    assert_eq!(parser.try_parse_variable(&"x".to_string()), Some(num("5")));
    assert_eq!(parser.try_parse_variable(&"y".to_string()), None);
}

#[test]
fn string_that_spells_a_variable_is_not_looked_up() {
    let mut parser = Parser::default();
    parser.parse_line(&vec![ident("x"), op("="), num("5")], 0);
    parser.parse_line(
        &vec![ident("print"), token(TokenType::String, "x"), op("+"), num("1")],
        1,
    );
    assert_eq!(
        parser.take_events(),
        vec![Event::Printed { text: "x1".to_string(), emphasized: false }]
    );
}

#[test]
fn get_surrounding_operator_gives_left_neighbour_and_stack_top() {
    let mut parser = Parser::default();
    parser.parse_line(&vec![num("8"), num("9")], 0);
    parser.parse_line(&vec![token(TokenType::Symbol, "("), token(TokenType::Symbol, ")")], 1);
    assert_eq!(parser.get_surrounding_operator("+"), None);
    assert_eq!(parser.stack_depth(), 1);
    assert_eq!(parser.take_events(), vec![missing("+", Side::Left, 2, 2)]);
}

#[test]
fn get_surrounding_operator_marks_the_left_neighbour_as_used() {
    let mut parser = Parser::default();
    parser.parse_line(&vec![num("1"), op("+"), num("2")], 0);
    assert_eq!(parser.stack_depth(), 1);
    assert_eq!(parser.get_surrounding_operator("+"), Some((num("1"), num("3"))));
    assert_eq!(parser.stack_depth(), 0);
    assert!(!parser.should_abort);
    assert_eq!(parser.get_surrounding_operator("<"), None);
    assert_eq!(parser.take_events(), vec![missing("<", Side::Right, 2, 1)]);
}

#[test]
fn parse_operator_applies_to_the_line_at_hand() {
    let mut parser = Parser::default();
    parser.parse_line(&vec![num("8")], 0);
    assert_eq!(parser.stack_depth(), 1);
    parser.parse_operator("*".to_string());
    assert_eq!(
        parser.take_events(),
        vec![Event::Failed {
            error: EvalError::UnknownOperator { operator: "*".to_string() },
            line: 1
        }]
    );
    assert_eq!(parser.stack_depth(), 1);
}

#[test]
fn error_enters_the_fault_and_stops() {
    let mut parser = Parser::default();
    parser.error(EvalError::UnknownIdentifier { name: "q".to_string() });
    assert!(parser.should_abort);
    assert_eq!(
        parser.take_events(),
        vec![Event::Failed { error: EvalError::UnknownIdentifier { name: "q".to_string() }, line: 1 }]
    );
    assert_eq!(parser.take_events(), vec![]);
}

#[test]
fn stopped_parser_evaluates_nothing() {
    let mut parser = Parser::default();
    parser.should_abort = true;
    parser.parse(vec![vec![ident("print"), num("1")]]);
    parser.parse_line(&vec![num("1")], 0);
    assert_eq!(parser.take_events(), vec![]);
    assert_eq!(parser.stack_depth(), 0);
}

#[test]
fn parse_identifier_pushes_a_variable() {
    let mut parser = Parser::default();
    parser.parse_line(&vec![ident("x"), op("="), num("5")], 0);
    parser.parse_identifier("x".to_string());
    assert_eq!(parser.stack_depth(), 1);
    parser.parse_identifier("print".to_string());
    assert_eq!(
        parser.take_events(),
        vec![Event::Printed { text: "5".to_string(), emphasized: false }]
    );
}
