//! The lexical grammar of one statement line, stated over character
//! sequences: where each lexical unit begins and ends, and which kind of token
//! it is.

use vstd::prelude::*;
use crate::lexer::{TokenType, TokenView};
use crate::number::is_digit;

verus! {

/// Blank characters: space, tab, vertical tab and form feed.
pub open spec fn is_space(c: char) -> bool {
    c == ' ' || c == '\t' || c == '\x0b' || c == '\x0c'
}

/// The six bracket characters.
pub open spec fn is_symbol(c: char) -> bool {
    c == '(' || c == ')' || c == '[' || c == ']' || c == '{' || c == '}'
}

/// The characters that operators are made of.
pub open spec fn is_operator_char(c: char) -> bool {
    c == '=' || c == '+' || c == '-' || c == '*' || c == '/' || c == '^' || c == '!' || c == '>'
        || c == '<' || c == '&' || c == '|'
}

/// The characters that end a word.
pub open spec fn is_delimiter(c: char) -> bool {
    is_space(c) || is_symbol(c) || is_operator_char(c) || c == '"' || c == '#'
}

/// Whether the two characters at `i` are the comment marker `//`.
pub open spec fn slashes_at(s: Seq<char>, i: int) -> bool {
    0 <= i && i + 1 < s.len() && s[i] == '/' && s[i + 1] == '/'
}

/// Whether a comment begins at `i`, outside a string literal: a `#`, or `//`.
pub open spec fn comment_at(s: Seq<char>, i: int) -> bool {
    0 <= i < s.len() && (s[i] == '#' || slashes_at(s, i))
}

/// Whether a numeric literal begins at `i`: a digit, or a `-` directly before
/// a digit, unless the `-` directly follows a numeric literal.
pub open spec fn number_at(s: Seq<char>, i: int, after_number: bool) -> bool {
    0 <= i < s.len() && (is_digit(s[i]) || (s[i] == '-' && !after_number && i + 1 < s.len()
        && is_digit(s[i + 1])))
}

/// Whether the operator character at `i` joins the next character to form a
/// two-character operator: any operator character before `=`, and `&&`, `||`.
pub open spec fn pair_at(s: Seq<char>, i: int) -> bool {
    &&& 0 <= i && i + 1 < s.len()
    &&& is_operator_char(s[i])
    &&& s[i + 1] == '=' || (s[i] == '&' && s[i + 1] == '&') || (s[i] == '|' && s[i + 1] == '|')
}

/// The first position at or after `i` that holds no digit.
pub open spec fn digits_end(s: Seq<char>, i: int) -> int
    decreases s.len() - i,
{
    if 0 <= i < s.len() && is_digit(s[i]) {
        digits_end(s, i + 1)
    } else {
        i
    }
}

/// The first position at or after `i` that holds a delimiter.
pub open spec fn word_end(s: Seq<char>, i: int) -> int
    decreases s.len() - i,
{
    if 0 <= i < s.len() && !is_delimiter(s[i]) {
        word_end(s, i + 1)
    } else {
        i
    }
}

/// The first position at or after `i` that holds a closing quote or begins the
/// marker `//`; the length of `s` if there is none.
pub open spec fn string_end(s: Seq<char>, i: int) -> int
    decreases s.len() - i,
{
    if 0 <= i < s.len() && s[i] != '"' && !slashes_at(s, i) {
        string_end(s, i + 1)
    } else {
        i
    }
}

/// Whether the string literal that opens at `i` has its closing quote.
pub open spec fn string_closed(s: Seq<char>, i: int) -> bool {
    let e = string_end(s, i + 1);
    e < s.len() && s[e] == '"'
}

/// The position just behind the lexical unit that begins at `i`, where `s[i]`
/// is neither blank nor the start of a comment. A string literal spans its
/// quotes; one without a closing quote ends before `//` or with the line.
pub open spec fn unit_end(s: Seq<char>, i: int, after_number: bool) -> int {
    if s[i] == '"' {
        if string_closed(s, i) {
            string_end(s, i + 1) + 1
        } else {
            string_end(s, i + 1)
        }
    } else if number_at(s, i, after_number) {
        if s[i] == '-' {
            digits_end(s, i + 1)
        } else {
            digits_end(s, i)
        }
    } else if is_symbol(s[i]) {
        i + 1
    } else if is_operator_char(s[i]) {
        if pair_at(s, i) {
            i + 2
        } else {
            i + 1
        }
    } else {
        word_end(s, i)
    }
}

/// Whether scanning goes on behind the unit that begins at `i`: a string
/// literal without its closing quote ends the line.
pub open spec fn goes_on(s: Seq<char>, i: int) -> bool {
    s[i] == '"' ==> string_closed(s, i)
}

/// A run of digits ends within the line, and holds digits only.
pub proof fn lemma_digits_end(s: Seq<char>, i: int)
    requires
        0 <= i <= s.len(),
    ensures
        i <= digits_end(s, i) <= s.len(),
        forall|j: int| i <= j < digits_end(s, i) ==> is_digit(#[trigger] s[j]),
    decreases s.len() - i,
{
    if i < s.len() && is_digit(s[i]) {
        lemma_digits_end(s, i + 1);
    }
}

/// A word ends within the line, and holds no delimiter.
pub proof fn lemma_word_end(s: Seq<char>, i: int)
    requires
        0 <= i <= s.len(),
    ensures
        i <= word_end(s, i) <= s.len(),
        forall|j: int| i <= j < word_end(s, i) ==> !is_delimiter(#[trigger] s[j]),
    decreases s.len() - i,
{
    if i < s.len() && !is_delimiter(s[i]) {
        lemma_word_end(s, i + 1);
    }
}

/// The content of a string literal ends within the line, and holds no quote.
pub proof fn lemma_string_end(s: Seq<char>, i: int)
    requires
        0 <= i <= s.len(),
    ensures
        i <= string_end(s, i) <= s.len(),
        forall|j: int| i <= j < string_end(s, i) ==> #[trigger] s[j] != '"',
    decreases s.len() - i,
{
    if i < s.len() && s[i] != '"' && !slashes_at(s, i) {
        lemma_string_end(s, i + 1);
    }
}

/// A lexical unit is not empty and ends within the line.
pub proof fn lemma_unit_end(s: Seq<char>, i: int, after_number: bool)
    requires
        0 <= i < s.len(),
        !is_space(s[i]),
        !comment_at(s, i),
    ensures
        i < unit_end(s, i, after_number) <= s.len(),
{
    if s[i] == '"' {
        lemma_string_end(s, i + 1);
    } else if number_at(s, i, after_number) {
        lemma_digits_end(s, i + 1);
    } else if is_symbol(s[i]) {
    } else if is_operator_char(s[i]) {
    } else {
        lemma_word_end(s, i + 1);
    }
}

/// The lexical units of `s` from position `i` on, each as the text it spans.
/// `after_number` says whether a numeric literal ends directly before `i`.
/// Blanks are passed over, a comment ends the line, and so does a string
/// literal without its closing quote.
pub open spec fn units_from(s: Seq<char>, i: int, after_number: bool) -> Seq<Seq<char>>
    decreases s.len() - i,
{
    if i < 0 || i >= s.len() {
        Seq::empty()
    } else if is_space(s[i]) {
        units_from(s, i + 1, false)
    } else if comment_at(s, i) {
        Seq::empty()
    } else {
        proof {
            lemma_unit_end(s, i, after_number);
        }
        let e = unit_end(s, i, after_number);
        if goes_on(s, i) {
            seq![s.subrange(i, e)] + units_from(s, e, number_at(s, i, after_number))
        } else {
            seq![s.subrange(i, e)]
        }
    }
}

/// The lexical units of one statement line.
pub open spec fn units(s: Seq<char>) -> Seq<Seq<char>> {
    units_from(s, 0, false)
}

/// The text between the quotes of a string literal unit: the opening quote is
/// dropped, and so is the closing quote where the unit has one.
pub open spec fn string_content(unit: Seq<char>) -> Seq<char> {
    if unit.len() >= 2 && unit.last() == '"' {
        unit.subrange(1, unit.len() - 1)
    } else {
        unit.subrange(1, unit.len() as int)
    }
}

/// The token that a lexical unit stands for. A string literal gives up its
/// quotes; the words `true` and `false` are Booleans; any other word is an
/// identifier.
pub open spec fn unit_token(unit: Seq<char>) -> TokenView {
    if unit.len() == 0 {
        TokenView { kind: TokenType::Identifier, text: unit }
    } else if unit[0] == '"' {
        TokenView { kind: TokenType::String, text: string_content(unit) }
    } else if is_digit(unit[0]) || (unit[0] == '-' && unit.len() >= 2 && is_digit(unit[1])) {
        TokenView { kind: TokenType::Number, text: unit }
    } else if is_symbol(unit[0]) {
        TokenView { kind: TokenType::Symbol, text: unit }
    } else if is_operator_char(unit[0]) {
        TokenView { kind: TokenType::Operator, text: unit }
    } else if unit == "true"@ || unit == "false"@ {
        TokenView { kind: TokenType::Boolean, text: unit }
    } else {
        TokenView { kind: TokenType::Identifier, text: unit }
    }
}

/// Whether a token is kept: one with an empty text is dropped.
pub open spec fn is_kept(token: TokenView) -> bool {
    token.text.len() > 0
}

/// The tokens that a run of lexical units gives, in the same order.
pub open spec fn tokens_of_units(run: Seq<Seq<char>>) -> Seq<TokenView> {
    run.map_values(|unit: Seq<char>| unit_token(unit)).filter(|token: TokenView| is_kept(token))
}

/// The tokens of one statement line, in source order.
pub open spec fn line_tokens(s: Seq<char>) -> Seq<TokenView> {
    tokens_of_units(units(s))
}

/// Whether `c` ends a statement line.
pub open spec fn is_separator(c: char) -> bool {
    c == '\n' || c == ';'
}

/// The statement lines of a source text: the text is cut at every newline and
/// every `;`, and carriage returns are left out.
pub open spec fn statement_lines(code: Seq<char>) -> Seq<Seq<char>>
    decreases code.len(),
{
    if code.len() == 0 {
        seq![Seq::empty()]
    } else {
        let before = statement_lines(code.drop_last());
        let c = code.last();
        if is_separator(c) {
            before.push(Seq::empty())
        } else if c == '\r' {
            before
        } else {
            before.drop_last().push(before.last().push(c))
        }
    }
}

/// The token lines that a run of statement lines gives: one for each line
/// that holds a token.
pub open spec fn tokens_of_lines(lines: Seq<Seq<char>>) -> Seq<Seq<TokenView>> {
    lines.map_values(|line: Seq<char>| line_tokens(line)).filter(
        |tokens: Seq<TokenView>| tokens.len() > 0,
    )
}

/// The token lines of a whole source text, in source order.
pub open spec fn lex_program(code: Seq<char>) -> Seq<Seq<TokenView>> {
    tokens_of_lines(statement_lines(code))
}

/// One more unit adds its token behind the others, if the token is kept.
pub proof fn lemma_tokens_of_units_push(run: Seq<Seq<char>>, unit: Seq<char>)
    ensures
        tokens_of_units(run.push(unit)) == if is_kept(unit_token(unit)) {
            tokens_of_units(run).push(unit_token(unit))
        } else {
            tokens_of_units(run)
        },
{
    let f = |unit: Seq<char>| unit_token(unit);
    let p = |token: TokenView| is_kept(token);
    run.lemma_push_map_commute(f, unit);
    run.map_values(f).lemma_filter_push(f(unit), p);
}

/// One more statement line adds its tokens behind the others, if it has any.
pub proof fn lemma_tokens_of_lines_push(lines: Seq<Seq<char>>, line: Seq<char>)
    ensures
        tokens_of_lines(lines.push(line)) == if line_tokens(line).len() > 0 {
            tokens_of_lines(lines).push(line_tokens(line))
        } else {
            tokens_of_lines(lines)
        },
{
    let f = |line: Seq<char>| line_tokens(line);
    let p = |tokens: Seq<TokenView>| tokens.len() > 0;
    lines.lemma_push_map_commute(f, line);
    lines.map_values(f).lemma_filter_push(f(line), p);
}

/// No lexical unit is empty.
pub proof fn lemma_units_not_empty(s: Seq<char>, i: int, after_number: bool, k: int)
    requires
        0 <= k < units_from(s, i, after_number).len(),
    ensures
        units_from(s, i, after_number)[k].len() > 0,
    decreases s.len() - i,
{
    if i < 0 || i >= s.len() {
    } else if is_space(s[i]) {
        lemma_units_not_empty(s, i + 1, false, k);
    } else if comment_at(s, i) {
    } else {
        lemma_unit_end(s, i, after_number);
        if k > 0 {
            lemma_units_not_empty(s, unit_end(s, i, after_number), number_at(s, i, after_number), k - 1);
        }
    }
}

} // verus!
