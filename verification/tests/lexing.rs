use postfix_interp::lexer::{Lexer, Token, TokenType};

fn token(token_type: TokenType, value: &str) -> Token {
    Token { token_type, value: value.to_string() }
}

fn ident(value: &str) -> Token {
    token(TokenType::Identifier, value)
}

fn op(value: &str) -> Token {
    token(TokenType::Operator, value)
}

fn num(value: &str) -> Token {
    token(TokenType::Number, value)
}

fn text(value: &str) -> Token {
    token(TokenType::String, value)
}

fn lex(code: &str) -> Vec<Vec<Token>> {
    Lexer::default().lex_code(code.to_string())
}

fn units(line: &str) -> Vec<String> {
    Lexer::default().split_tokens(line.to_string())
}

#[test]
fn assignment_line_gives_three_tokens() {
    assert_eq!(lex("x = 5"), vec![vec![ident("x"), op("="), num("5")]]);
}

#[test]
fn minus_before_digit_is_a_sign() {
    assert_eq!(lex("-5"), vec![vec![num("-5")]]);
    assert_eq!(lex("3 -5"), vec![vec![num("3"), num("-5")]]);
    assert_eq!(lex("x-5"), vec![vec![ident("x"), num("-5")]]);
}

#[test]
fn minus_behind_number_is_an_operator() {
    assert_eq!(lex("3-5"), vec![vec![num("3"), op("-"), num("5")]]);
    assert_eq!(lex("3 - 5"), vec![vec![num("3"), op("-"), num("5")]]);
    assert_eq!(lex("1--5"), vec![vec![num("1"), op("-"), num("-5")]]);
}

#[test]
fn words_are_identifiers_or_booleans() {
    assert_eq!(
        lex("print true false truer x1"),
        vec![vec![
            ident("print"),
            token(TokenType::Boolean, "true"),
            token(TokenType::Boolean, "false"),
            ident("truer"),
            ident("x1"),
        ]]
    );
}

#[test]
fn digits_end_a_number_at_the_first_other_character() {
    assert_eq!(lex("12ab"), vec![vec![num("12"), ident("ab")]]);
    assert_eq!(lex("007"), vec![vec![num("007")]]);
}

#[test]
fn brackets_are_single_symbols() {
    assert_eq!(
        lex("(a)[b]{c}"),
        vec![vec![
            token(TokenType::Symbol, "("),
            ident("a"),
            token(TokenType::Symbol, ")"),
            token(TokenType::Symbol, "["),
            ident("b"),
            token(TokenType::Symbol, "]"),
            token(TokenType::Symbol, "{"),
            ident("c"),
            token(TokenType::Symbol, "}"),
        ]]
    );
}

#[test]
fn operator_before_equals_sign_is_one_operator() {
    assert_eq!(
        lex("a >= b <= c == d != e"),
        vec![vec![
            ident("a"),
            op(">="),
            ident("b"),
            op("<="),
            ident("c"),
            op("=="),
            ident("d"),
            op("!="),
            ident("e"),
        ]]
    );
    assert_eq!(lex("+= *= /= ^="), vec![vec![op("+="), op("*="), op("/="), op("^=")]]);
    assert_eq!(lex("==="), vec![vec![op("=="), op("=")]]);
}

#[test]
fn doubled_ampersand_and_bar_are_one_operator() {
    assert_eq!(lex("a && b || c"), vec![vec![ident("a"), op("&&"), ident("b"), op("||"), ident("c")]]);
    assert_eq!(lex("a & b | c"), vec![vec![ident("a"), op("&"), ident("b"), op("|"), ident("c")]]);
    assert_eq!(lex("&&&"), vec![vec![op("&&"), op("&")]]);
}

#[test]
fn single_operators_stand_alone() {
    assert_eq!(
        lex("a+b*c/d^e!f>g<h"),
        vec![vec![
            ident("a"),
            op("+"),
            ident("b"),
            op("*"),
            ident("c"),
            op("/"),
            ident("d"),
            op("^"),
            ident("e"),
            op("!"),
            ident("f"),
            op(">"),
            ident("g"),
            op("<"),
            ident("h"),
        ]]
    );
}

#[test]
fn string_literal_loses_its_quotes() {
    assert_eq!(lex("print \"hello world\""), vec![vec![ident("print"), text("hello world")]]);
    assert_eq!(lex("\"a\"\"b\""), vec![vec![text("a"), text("b")]]);
    assert_eq!(lex("x\"y\"z"), vec![vec![ident("x"), text("y"), ident("z")]]);
}

#[test]
fn string_literal_keeps_operators_and_hash() {
    assert_eq!(lex("\"a + b # (c)\""), vec![vec![text("a + b # (c)")]]);
}

#[test]
fn comment_marker_inside_string_cuts_it_and_ends_the_line() {
    assert_eq!(lex("print \"a//b\" x"), vec![vec![ident("print"), text("a")]]);
    assert_eq!(lex("print \"a\"//b"), vec![vec![ident("print"), text("a")]]);
}

#[test]
fn unterminated_string_runs_to_the_end_of_the_line() {
    assert_eq!(lex("print \"abc"), vec![vec![ident("print"), text("abc")]]);
    assert_eq!(lex("print \"abc\nprint x"), vec![
        vec![ident("print"), text("abc")],
        vec![ident("print"), ident("x")],
    ]);
}

#[test]
fn empty_string_literal_gives_no_token() {
    assert_eq!(lex("x = \"\""), vec![vec![ident("x"), op("=")]]);
    assert_eq!(lex("\"\""), Vec::<Vec<Token>>::new());
}

#[test]
fn comments_end_the_line() {
    assert_eq!(lex("x = 5 // five"), vec![vec![ident("x"), op("="), num("5")]]);
    assert_eq!(lex("x = 5 # five"), vec![vec![ident("x"), op("="), num("5")]]);
    assert_eq!(lex("x = 5#five"), vec![vec![ident("x"), op("="), num("5")]]);
    assert_eq!(lex("x = 5//five"), vec![vec![ident("x"), op("="), num("5")]]);
    assert_eq!(lex("a / b"), vec![vec![ident("a"), op("/"), ident("b")]]);
}

#[test]
fn blank_and_comment_lines_give_no_line() {
    assert_eq!(lex(""), Vec::<Vec<Token>>::new());
    assert_eq!(lex("\n\n   \n\t\n"), Vec::<Vec<Token>>::new());
    assert_eq!(lex("// only a comment\n# another\n   // indented"), Vec::<Vec<Token>>::new());
    assert_eq!(lex("\n// c\nx\n\n# d\ny\n"), vec![vec![ident("x")], vec![ident("y")]]);
}

#[test]
fn newline_and_semicolon_separate_statements() {
    assert_eq!(
        lex("x = 1; y = 2\nprint x"),
        vec![
            vec![ident("x"), op("="), num("1")],
            vec![ident("y"), op("="), num("2")],
            vec![ident("print"), ident("x")],
        ]
    );
}

#[test]
fn semicolon_separates_even_inside_quotes() {
    assert_eq!(lex("\"a;b\""), vec![vec![text("a")], vec![ident("b")]]);
}

#[test]
fn carriage_returns_are_left_out() {
    assert_eq!(lex("x = 1\r\ny\r = 2\r\n"), vec![
        vec![ident("x"), op("="), num("1")],
        vec![ident("y"), op("="), num("2")],
    ]);
    assert_eq!(lex("ab\rcd"), vec![vec![ident("abcd")]]);
}

#[test]
fn tabs_separate_tokens() {
    assert_eq!(lex("print\tx"), vec![vec![ident("print"), ident("x")]]);
}

#[test]
fn tokens_come_in_source_order() {
    assert_eq!(
        lex("z = x + y"),
        vec![vec![ident("z"), op("="), ident("x"), op("+"), ident("y")]]
    );
}

#[test]
fn lexer_can_be_used_again() {
    let mut lexer = Lexer::default();
    assert_eq!(lexer.lex_code("x = 5".to_string()), vec![vec![ident("x"), op("="), num("5")]]);
    assert_eq!(lexer.lex_code("print x".to_string()), vec![vec![ident("print"), ident("x")]]);
    assert_eq!(lexer.lex_code("y".to_string()), vec![vec![ident("y")]]);
}

#[test]
fn split_tokens_gives_units_as_written() {
    assert_eq!(units("print \"a b\" + -5"), vec!["print", "\"a b\"", "+", "-5"]);
    assert_eq!(units("  x>=1 # c"), vec!["x", ">=", "1"]);
    assert_eq!(units("\"open"), vec!["\"open"]);
    assert_eq!(units("\"a//b\" c"), vec!["\"a"]);
    assert_eq!(units(""), Vec::<String>::new());
    assert_eq!(units("   "), Vec::<String>::new());
}

#[test]
fn current_token_walks_the_units_of_a_line() {
    let lines = vec!["x = 5", "print x"];
    let mut lexer = Lexer::default();
    assert_eq!(lexer.current_token(&lines, 0), "x");
    assert_eq!(lexer.current_token(&lines, 0), "x");
    lexer.begin_token(ident("x"));
    lexer.push_token();
    assert_eq!(lexer.current_token(&lines, 0), "=");
    lexer.begin_token(op("="));
    lexer.push_token();
    assert_eq!(lexer.current_token(&lines, 0), "5");
    lexer.begin_token(num("5"));
    lexer.push_token();
    assert_eq!(lexer.current_token(&lines, 0), "");
    assert_eq!(lexer.current_token(&lines, 1), "");
}

#[test]
fn push_token_without_a_text_stays_at_its_unit() {
    let lines = vec!["x = 5"];
    let mut lexer = Lexer::default();
    assert_eq!(lexer.current_token(&lines, 0), "x");
    lexer.push_token();
    assert_eq!(lexer.current_token(&lines, 0), "x");
    lexer.begin_token(text(""));
    lexer.push_token();
    assert_eq!(lexer.current_token(&lines, 0), "x");
    lexer.begin_token(ident("x"));
    lexer.push_token();
    assert_eq!(lexer.current_token(&lines, 0), "=");
    lexer.push_token();
    assert_eq!(lexer.current_token(&lines, 0), "=");
}

#[test]
fn push_token_begins_a_fresh_token() {
    let lines = vec!["a b c"];
    let mut lexer = Lexer::default();
    lexer.begin_token(ident("a"));
    lexer.push_token();
    assert_eq!(lexer.current_token(&lines, 0), "b");
    lexer.push_token();
    assert_eq!(lexer.current_token(&lines, 0), "b");
}

#[test]
fn current_token_splits_another_line_afresh() {
    let lines = vec!["a b", "c d"];
    let mut lexer = Lexer::default();
    assert_eq!(lexer.current_token(&lines, 0), "a");
    assert_eq!(lexer.current_token(&lines, 1), "c");
    lexer.begin_token(ident("c"));
    lexer.push_token();
    assert_eq!(lexer.current_token(&lines, 1), "d");
    assert_eq!(lexer.current_token(&lines, 0), "b");
}

#[test]
fn line_with_a_dropped_unit_is_lexed_to_its_end() {
    assert_eq!(lex("\"\" x"), vec![vec![ident("x")]]);
    assert_eq!(lex("a \"\" b \"\" c"), vec![vec![ident("a"), ident("b"), ident("c")]]);
    assert_eq!(lex("x = \"\" + 1"), vec![vec![ident("x"), op("="), op("+"), num("1")]]);
}

#[test]
fn default_token_is_a_blank_identifier() {
    assert_eq!(Token::default(), ident(""));
    assert_eq!(TokenType::default(), TokenType::Identifier);
}

#[test]
fn cloned_token_is_equal() {
    let t = text("abc");
    assert_eq!(t.clone(), t);
}
