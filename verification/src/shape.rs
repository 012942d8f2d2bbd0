//! What holds of every token that lexing gives.

use vstd::prelude::*;
use crate::grammar::{
    comment_at, digits_end, is_delimiter, is_kept, is_operator_char, is_space, is_symbol,
    lemma_digits_end, lemma_string_end, lemma_unit_end, lemma_word_end, lex_program,
    line_tokens, number_at, pair_at, statement_lines, string_closed, string_content, string_end,
    unit_end, unit_token, units, units_from, word_end,
};
use crate::lexer::{TokenType, TokenView};
use crate::number::{all_digits, decimal_value, is_digit};

verus! {

/// Whether a token is one that lexing can give. Its text is not empty. A
/// number is a numeral, with `-` as its only sign. A symbol is one bracket.
/// An operator is one operator character, alone or joined with the one
/// character that it pairs with. A Boolean is `true` or `false`. An
/// identifier is a word other than those two, free of delimiters, that does
/// not begin with a digit. A string holds no quote.
pub open spec fn well_formed(token: TokenView) -> bool {
    let text = token.text;
    &&& text.len() > 0
    &&& match token.kind {
        TokenType::Number => decimal_value(text) is Some && text[0] != '+',
        TokenType::Symbol => text.len() == 1 && is_symbol(text[0]),
        TokenType::Operator => is_operator_char(text[0]) && (text.len() == 1 || (text.len() == 2
            && (text[1] == '=' || (text[0] == '&' && text[1] == '&') || (text[0] == '|' && text[1]
            == '|')))),
        TokenType::Boolean => text == "true"@ || text == "false"@,
        TokenType::Identifier => {
            &&& forall|i: int| 0 <= i < text.len() ==> !is_delimiter(#[trigger] text[i])
            &&& !is_digit(text[0])
            &&& text != "true"@
            &&& text != "false"@
        },
        TokenType::String => forall|i: int| 0 <= i < text.len() ==> #[trigger] text[i] != '"',
    }
}

/// The token that a lexical unit stands for is well formed, if it is kept.
pub proof fn lemma_unit(s: Seq<char>, i: int, after_number: bool)
    requires
        0 <= i < s.len(),
        !is_space(s[i]),
        !comment_at(s, i),
    ensures
        is_kept(unit_token(s.subrange(i, unit_end(s, i, after_number)))) ==> well_formed(
            unit_token(s.subrange(i, unit_end(s, i, after_number))),
        ),
{
    lemma_unit_end(s, i, after_number);
    let e = unit_end(s, i, after_number);
    let unit = s.subrange(i, e);
    if s[i] == '"' {
        lemma_string_end(s, i + 1);
        let inner = string_end(s, i + 1);
        assert(unit[0] == '"');
        let content = string_content(unit);
        if string_closed(s, i) {
            assert(unit.last() == '"');
            assert(content == s.subrange(i + 1, inner));
        } else {
            if unit.len() >= 2 {
                assert(unit.last() == s[inner - 1]);
            }
            assert(content == s.subrange(i + 1, inner));
        }
        assert forall|j: int| 0 <= j < content.len() implies #[trigger] content[j] != '"' by {
            assert(content[j] == s[i + 1 + j]);
        }
    } else if number_at(s, i, after_number) {
        if s[i] == '-' {
            lemma_digits_end(s, i + 1);
            assert(digits_end(s, i + 1) == digits_end(s, i + 2));
            lemma_digits_end(s, i + 2);
            assert(unit[0] == '-');
            assert(unit[1] == s[i + 1]);
            let body = unit.drop_first();
            assert forall|j: int| 0 <= j < body.len() implies is_digit(#[trigger] body[j]) by {
                assert(body[j] == s[i + 1 + j]);
            }
            assert(all_digits(body));
        } else {
            assert(digits_end(s, i) == digits_end(s, i + 1));
            lemma_digits_end(s, i);
            lemma_digits_end(s, i + 1);
            assert(unit[0] == s[i]);
            assert forall|j: int| 0 <= j < unit.len() implies is_digit(#[trigger] unit[j]) by {
                assert(unit[j] == s[i + j]);
            }
            assert(all_digits(unit));
        }
    } else if is_symbol(s[i]) {
        assert(unit[0] == s[i]);
    } else if is_operator_char(s[i]) {
        assert(unit[0] == s[i]);
        if pair_at(s, i) {
            assert(unit[1] == s[i + 1]);
        }
    } else {
        assert(word_end(s, i) == word_end(s, i + 1));
        lemma_word_end(s, i);
        lemma_word_end(s, i + 1);
        assert(unit[0] == s[i]);
        assert forall|j: int| 0 <= j < unit.len() implies !is_delimiter(#[trigger] unit[j]) by {
            assert(unit[j] == s[i + j]);
        }
    }
}

/// Every lexical unit of a line stands for a token that is well formed, if it
/// is kept.
pub proof fn lemma_units_well_formed(s: Seq<char>, i: int, after_number: bool, k: int)
    requires
        0 <= k < units_from(s, i, after_number).len(),
    ensures
        is_kept(unit_token(units_from(s, i, after_number)[k])) ==> well_formed(
            unit_token(units_from(s, i, after_number)[k]),
        ),
    decreases s.len() - i,
{
    if i < 0 || i >= s.len() {
    } else if is_space(s[i]) {
        lemma_units_well_formed(s, i + 1, false, k);
    } else if comment_at(s, i) {
    } else {
        lemma_unit(s, i, after_number);
        lemma_unit_end(s, i, after_number);
        let e = unit_end(s, i, after_number);
        if k > 0 {
            lemma_units_well_formed(s, e, number_at(s, i, after_number), k - 1);
        }
    }
}

/// Lexing gives well-formed tokens: every token of a statement line is one
/// that `well_formed` describes.
pub proof fn law_line_tokens_well_formed(s: Seq<char>, k: int)
    requires
        0 <= k < line_tokens(s).len(),
    ensures
        well_formed(line_tokens(s)[k]),
{
    let f = |unit: Seq<char>| unit_token(unit);
    let p = |token: TokenView| is_kept(token);
    let mapped = units(s).map_values(f);
    let token = line_tokens(s)[k];
    mapped.lemma_filter_pred(p, k);
    assert(mapped.filter(p).contains(token));
    mapped.lemma_filter_contains_rev(p, token);
    let j = choose|j: int| 0 <= j < mapped.len() && mapped[j] == token;
    assert(mapped[j] == unit_token(units(s)[j]));
    lemma_units_well_formed(s, 0, false, j);
}

/// Whether every line of a program holds a token, and well-formed tokens
/// only.
pub open spec fn well_formed_program(program: Seq<Seq<TokenView>>) -> bool {
    forall|l: int, k: int|
        0 <= l < program.len() ==> program[l].len() > 0 && (0 <= k < program[l].len()
            ==> well_formed(#[trigger] program[l][k]))
}

/// Lexing gives a well-formed program: no line of it is empty, and every
/// token in it is well formed.
pub proof fn law_lexed_program_well_formed(code: Seq<char>)
    ensures
        well_formed_program(lex_program(code)),
{
    let f = |line: Seq<char>| line_tokens(line);
    let p = |tokens: Seq<TokenView>| tokens.len() > 0;
    let mapped = statement_lines(code).map_values(f);
    let program = lex_program(code);
    assert forall|l: int, k: int| 0 <= l < program.len() implies program[l].len() > 0 && (0 <= k
        < program[l].len() ==> well_formed(#[trigger] program[l][k])) by {
        mapped.lemma_filter_pred(p, l);
        assert(mapped.filter(p).contains(program[l]));
        mapped.lemma_filter_contains_rev(p, program[l]);
        let j = choose|j: int| 0 <= j < mapped.len() && mapped[j] == program[l];
        assert(mapped[j] == line_tokens(statement_lines(code)[j]));
        if 0 <= k < program[l].len() {
            law_line_tokens_well_formed(statement_lines(code)[j], k);
        }
    }
}

} // verus!
