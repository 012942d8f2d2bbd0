//! Laws about whole source texts: what a statement means from its characters
//! to the journal.

use vstd::prelude::*;
use crate::grammar::{
    comment_at, digits_end, goes_on, is_delimiter, is_kept, is_separator, is_space,
    lemma_tokens_of_lines_push, lemma_tokens_of_units_push, lex_program, line_tokens, number_at,
    pair_at, slashes_at, statement_lines, string_content, string_end, tokens_of_lines,
    tokens_of_units, unit_end, unit_token, units, units_from, word_end,
};
use crate::laws::{identifier, law_print_literal, law_printed_sum, number, operator};
use crate::lexer::{TokenType, TokenView};
use crate::number::{
    decimal_text, digits_text, is_digit, lemma_decimal_round_trip, lemma_digits_text,
};
use crate::semantics::{after_line, after_lines, after_program, EventView, ParserView};

verus! {

/// A run of digits that is followed by no digit ends where it ends.
pub proof fn lemma_digits_run(s: Seq<char>, i: int, e: int)
    requires
        0 <= i <= e <= s.len(),
        forall|j: int| i <= j < e ==> is_digit(#[trigger] s[j]),
        e < s.len() ==> !is_digit(s[e]),
    ensures
        digits_end(s, i) == e,
    decreases e - i,
{
    if i < e {
        lemma_digits_run(s, i + 1, e);
    }
}

/// A run of characters that are no delimiters and that a delimiter follows
/// ends where it ends.
pub proof fn lemma_word_run(s: Seq<char>, i: int, e: int)
    requires
        0 <= i <= e <= s.len(),
        forall|j: int| i <= j < e ==> !is_delimiter(#[trigger] s[j]),
        e < s.len() ==> is_delimiter(s[e]),
    ensures
        word_end(s, i) == e,
    decreases e - i,
{
    if i < e {
        lemma_word_run(s, i + 1, e);
    }
}

/// The canonical decimal text of an integer is a numeral: digits, behind a
/// `-` when the integer is negative.
pub proof fn lemma_numeral(n: int)
    ensures
        ({
            let t = decimal_text(n);
            &&& t.len() >= 1
            &&& n < 0 ==> t.len() >= 2 && t[0] == '-' && forall|j: int|
                1 <= j < t.len() ==> is_digit(#[trigger] t[j])
            &&& n >= 0 ==> forall|j: int| 0 <= j < t.len() ==> is_digit(#[trigger] t[j])
        }),
{
    let t = decimal_text(n);
    if n < 0 {
        let d = digits_text((-n) as nat);
        lemma_digits_text((-n) as nat);
        assert forall|j: int| 1 <= j < t.len() implies is_digit(#[trigger] t[j]) by {
            assert(t[j] == d[j - 1]);
        }
    } else {
        lemma_digits_text(n as nat);
    }
}

/// A text without separators and carriage returns is one statement line.
pub proof fn lemma_one_line(s: Seq<char>)
    requires
        forall|j: int| 0 <= j < s.len() ==> !is_separator(#[trigger] s[j]) && s[j] != '\r',
    ensures
        statement_lines(s) == seq![s],
    decreases s.len(),
{
    if s.len() == 0 {
        assert(s == Seq::<char>::empty());
    } else {
        lemma_one_line(s.drop_last());
        let before = statement_lines(s.drop_last());
        assert(before == seq![s.drop_last()]);
        assert(before.drop_last() == Seq::<Seq<char>>::empty());
        assert(before.last().push(s.last()) == s);
        assert(before.drop_last().push(s) == seq![s]);
    }
}

/// Where the canonical decimal text of `n` stands at `i` with no digit
/// behind it, and no numeral ends directly before it, it is one lexical unit,
/// and the unit stands for the number with that text.
pub proof fn lemma_numeral_unit(s: Seq<char>, i: int, n: int)
    requires
        0 <= i,
        i + decimal_text(n).len() <= s.len(),
        s.subrange(i, i + decimal_text(n).len() as int) == decimal_text(n),
        i + decimal_text(n).len() < s.len() ==> !is_digit(s[i + decimal_text(n).len() as int]),
    ensures
        !is_space(s[i]),
        !comment_at(s, i),
        goes_on(s, i),
        number_at(s, i, false),
        unit_end(s, i, false) == i + decimal_text(n).len(),
        unit_token(decimal_text(n)) == number(decimal_text(n)),
        is_kept(number(decimal_text(n))),
{
    let t = decimal_text(n);
    let e = i + t.len();
    lemma_numeral(n);
    assert forall|j: int| 0 <= j < t.len() implies s[i + j] == #[trigger] t[j] by {
        assert(s.subrange(i, e)[j] == s[i + j]);
    }
    assert(s[i] == t[0]);
    if n < 0 {
        assert(s[i + 1] == t[1]);
        assert forall|j: int| i + 1 <= j < e implies is_digit(#[trigger] s[j]) by {
            assert(s[j] == t[j - i]);
        }
        lemma_digits_run(s, i + 1, e);
    } else {
        assert forall|j: int| i <= j < e implies is_digit(#[trigger] s[j]) by {
            assert(s[j] == t[j - i]);
        }
        lemma_digits_run(s, i, e);
        assert(digits_end(s, i) == digits_end(s, i + 1));
    }
}

/// The statement that prints the sum of `a` and `b`: `print a + b`, with the
/// two integers in their canonical decimal text.
pub open spec fn sum_statement(a: int, b: int) -> Seq<char> {
    "print "@ + decimal_text(a) + " + "@ + decimal_text(b)
}

/// The characters of the statement that prints a sum, place by place.
proof fn lemma_sum_statement_chars(a: int, b: int)
    ensures
        ({
            let t = sum_statement(a, b);
            let x = decimal_text(a);
            let y = decimal_text(b);
            let n = x.len() as int;
            let m = y.len() as int;
            &&& t.len() == 9 + n + m
            &&& t.subrange(0, 5) == "print"@
            &&& t[5] == ' '
            &&& t.subrange(6, 6 + n) == x
            &&& t[6 + n] == ' '
            &&& t[7 + n] == '+'
            &&& t[8 + n] == ' '
            &&& t.subrange(7 + n, 8 + n) == "+"@
            &&& t.subrange(9 + n, 9 + n + m) == y
        }),
{
    reveal_strlit("print ");
    reveal_strlit("print");
    reveal_strlit(" + ");
    reveal_strlit("+");
    let t = sum_statement(a, b);
    let x = decimal_text(a);
    let y = decimal_text(b);
    let n = x.len() as int;
    let m = y.len() as int;
    assert(t.subrange(0, 5) =~= "print"@);
    assert(t.subrange(6, 6 + n) =~= x);
    assert(t.subrange(7 + n, 8 + n) =~= "+"@);
    assert(t.subrange(9 + n, 9 + n + m) =~= y);
}

/// The statement that prints a sum has four lexical units: `print`, the
/// first numeral, `+`, and the second numeral.
pub proof fn lemma_sum_statement_units(a: int, b: int)
    ensures
        units(sum_statement(a, b)) == seq!["print"@, decimal_text(a), "+"@, decimal_text(b)],
{
    reveal_strlit("print");
    reveal_strlit("+");
    let t = sum_statement(a, b);
    let x = decimal_text(a);
    let y = decimal_text(b);
    lemma_sum_statement_chars(a, b);
    lemma_numeral(a);
    lemma_numeral(b);
    let p1: int = 6 + x.len() as int;
    let p2: int = 9 + x.len() as int;
    let end = t.len() as int;
    // the second numeral
    lemma_numeral_unit(t, p2, b);
    assert(units_from(t, end, true) == Seq::<Seq<char>>::empty());
    assert(units_from(t, p2, false) == seq![y] + units_from(t, end, true));
    assert(units_from(t, p2, false) == seq![y]);
    assert(units_from(t, p2 - 1, false) == seq![y]);
    // the operator
    assert(!pair_at(t, p2 - 2));
    assert(!number_at(t, p2 - 2, false));
    assert(unit_end(t, p2 - 2, false) == p2 - 1);
    assert(units_from(t, p2 - 2, false) == seq!["+"@] + seq![y]);
    assert(units_from(t, p1, true) == seq!["+"@] + seq![y]);
    // the first numeral
    lemma_numeral_unit(t, 6, a);
    assert(units_from(t, 6, false) == seq![x] + units_from(t, p1, true));
    assert(units_from(t, 5, false) == seq![x] + (seq!["+"@] + seq![y]));
    // the word
    assert forall|j: int| 0 <= j < 5 implies !is_delimiter(#[trigger] t[j]) by {
        assert(t[j] == t.subrange(0, 5)[j]);
    }
    lemma_word_run(t, 0, 5);
    assert(t[0] == t.subrange(0, 5)[0]);
    assert(word_end(t, 0) == 5);
    assert(unit_end(t, 0, false) == 5);
    assert(units_from(t, 0, false) == seq!["print"@] + units_from(t, 5, false));
    assert(seq!["print"@] + (seq![x] + (seq!["+"@] + seq![y])) =~= seq!["print"@, x, "+"@, y]);
}

/// The statement that prints a sum has four tokens: the identifier `print`,
/// the first number, the operator `+`, and the second number.
pub proof fn lemma_sum_statement_tokens(a: int, b: int)
    ensures
        line_tokens(sum_statement(a, b)) == seq![
            identifier("print"@),
            number(decimal_text(a)),
            operator("+"@),
            number(decimal_text(b)),
        ],
{
    reveal_strlit("print");
    reveal_strlit("true");
    reveal_strlit("false");
    reveal_strlit("+");
    let x = decimal_text(a);
    let y = decimal_text(b);
    lemma_sum_statement_units(a, b);
    assert(x.subrange(0, x.len() as int) == x);
    assert(y.subrange(0, y.len() as int) == y);
    lemma_numeral_unit(x, 0, a);
    lemma_numeral_unit(y, 0, b);
    assert(unit_token("print"@) == identifier("print"@));
    assert(unit_token("+"@) == operator("+"@));
    let none = Seq::<Seq<char>>::empty();
    assert(tokens_of_units(none) == Seq::<TokenView>::empty()) by {
        reveal(Seq::filter);
    }
    lemma_tokens_of_units_push(none, "print"@);
    lemma_tokens_of_units_push(none.push("print"@), x);
    lemma_tokens_of_units_push(none.push("print"@).push(x), "+"@);
    lemma_tokens_of_units_push(none.push("print"@).push(x).push("+"@), y);
    assert(none.push("print"@).push(x).push("+"@).push(y) =~= seq!["print"@, x, "+"@, y]);
    assert(Seq::<TokenView>::empty().push(identifier("print"@)).push(number(x)).push(
        operator("+"@),
    ).push(number(y)) =~= seq![identifier("print"@), number(x), operator("+"@), number(y)]);
}

/// Printing a sum prints the sum, from the text to the journal: for integers
/// `a` and `b` within 64 bits, lexing and evaluating the statement
/// `print a + b` enters the canonical decimal text of `a + b` in the journal
/// as printed, and leaves the operand stack and the variables as they were.
pub proof fn law_sum_statement(s: ParserView, a: int, b: int)
    requires
        !s.should_abort,
        i64::MIN <= a <= i64::MAX,
        i64::MIN <= b <= i64::MAX,
    ensures
        ({
            let after = after_program(s, lex_program(sum_statement(a, b)));
            &&& after.events == s.events.push(
                EventView::Printed { text: decimal_text(a + b), emphasized: false },
            )
            &&& after.stack == s.stack
            &&& after.variables == s.variables
            &&& !after.should_abort
        }),
{
    let t = sum_statement(a, b);
    let x = decimal_text(a);
    let y = decimal_text(b);
    let n = x.len() as int;
    let m = y.len() as int;
    let tokens = seq![identifier("print"@), number(x), operator("+"@), number(y)];
    lemma_sum_statement_chars(a, b);
    lemma_sum_statement_tokens(a, b);
    lemma_numeral(a);
    lemma_numeral(b);
    reveal_strlit("print");
    assert forall|j: int| 0 <= j < t.len() implies !is_separator(#[trigger] t[j]) && t[j]
        != '\r' by {
        if j < 5 {
            assert(t[j] == t.subrange(0, 5)[j]);
        } else if j == 5 {
        } else if j < 6 + n {
            assert(t[j] == t.subrange(6, 6 + n)[j - 6]);
            assert(x[j - 6] == '-' || is_digit(x[j - 6]));
        } else if j < 9 + n {
        } else {
            assert(t[j] == t.subrange(9 + n, 9 + n + m)[j - 9 - n]);
            assert(y[j - 9 - n] == '-' || is_digit(y[j - 9 - n]));
        }
    }
    lemma_one_line(t);
    lemma_one_line_program(s, t);
    lemma_decimal_round_trip(a);
    lemma_decimal_round_trip(b);
    law_printed_sum(s, 0, x, y, a, b);
}

/// A string content that is free of quotes and of the marker `//`, and that a
/// quote or the marker follows, ends where it ends.
pub proof fn lemma_string_run(s: Seq<char>, i: int, e: int)
    requires
        0 <= i <= e <= s.len(),
        forall|j: int| i <= j < e ==> #[trigger] s[j] != '"' && !slashes_at(s, j),
        e < s.len() ==> s[e] == '"' || slashes_at(s, e),
    ensures
        string_end(s, i) == e,
    decreases e - i,
{
    if i < e {
        assert(s[i] != '"' && !slashes_at(s, i));
        lemma_string_run(s, i + 1, e);
    }
}

/// Whether a text can stand between quotes as it is: it holds no quote, no
/// marker `//`, no separator and no carriage return.
pub open spec fn is_plain_content(content: Seq<char>) -> bool {
    forall|j: int|
        0 <= j < content.len() ==> {
            &&& #[trigger] content[j] != '"'
            &&& !slashes_at(content, j)
            &&& !is_separator(content[j])
            &&& content[j] != '\r'
        }
}

/// Whether a text is a comment that stays on its line: it begins with `#` or
/// `//` and holds no separator and no carriage return.
pub open spec fn is_comment(comment: Seq<char>) -> bool {
    &&& comment_at(comment, 0)
    &&& forall|j: int|
        0 <= j < comment.len() ==> !is_separator(#[trigger] comment[j]) && comment[j] != '\r'
}

/// The statement that prints the string `content`, with a comment behind it:
/// `print "content" comment`.
pub open spec fn commented_print(content: Seq<char>, comment: Seq<char>) -> Seq<char> {
    "print \""@ + content + "\" "@ + comment
}

/// The characters of a commented print statement, place by place.
proof fn lemma_commented_print_chars(content: Seq<char>, comment: Seq<char>)
    ensures
        ({
            let t = commented_print(content, comment);
            let k = content.len() as int;
            &&& t.len() == 9 + k + comment.len()
            &&& t.subrange(0, 5) == "print"@
            &&& t[5] == ' '
            &&& t[6] == '"'
            &&& t.subrange(7, 7 + k) == content
            &&& t[7 + k] == '"'
            &&& t[8 + k] == ' '
            &&& t.subrange(9 + k, t.len() as int) == comment
            &&& t.subrange(6, 8 + k) == seq!['"'] + content + seq!['"']
        }),
{
    reveal_strlit("print \"");
    reveal_strlit("print");
    reveal_strlit("\" ");
    let t = commented_print(content, comment);
    let k = content.len() as int;
    assert(t.subrange(0, 5) =~= "print"@);
    assert(t.subrange(7, 7 + k) =~= content);
    assert(t.subrange(9 + k, t.len() as int) =~= comment);
    assert(t.subrange(6, 8 + k) =~= seq!['"'] + content + seq!['"']);
}

/// A commented print statement has two lexical units: `print` and the string
/// literal. The comment gives none.
pub proof fn lemma_commented_print_units(content: Seq<char>, comment: Seq<char>)
    requires
        is_plain_content(content),
        is_comment(comment),
    ensures
        units(commented_print(content, comment)) == seq![
            "print"@,
            seq!['"'] + content + seq!['"'],
        ],
{
    reveal_strlit("print");
    let t = commented_print(content, comment);
    let k = content.len() as int;
    let literal = seq!['"'] + content + seq!['"'];
    lemma_commented_print_chars(content, comment);
    // the comment
    assert(t[9 + k] == t.subrange(9 + k, t.len() as int)[0]);
    if comment[0] != '#' {
        assert(t[10 + k] == t.subrange(9 + k, t.len() as int)[1]);
    }
    assert(comment_at(t, 9 + k));
    assert(units_from(t, 9 + k, false) == Seq::<Seq<char>>::empty());
    assert(units_from(t, 8 + k, false) == Seq::<Seq<char>>::empty());
    // the string literal
    assert forall|j: int| 7 <= j < 7 + k implies #[trigger] t[j] != '"' && !slashes_at(t, j) by {
        assert(t[j] == t.subrange(7, 7 + k)[j - 7]);
        if j + 1 < 7 + k {
            assert(t[j + 1] == t.subrange(7, 7 + k)[j + 1 - 7]);
        }
        assert(!slashes_at(content, j - 7));
    }
    lemma_string_run(t, 7, 7 + k);
    assert(unit_end(t, 6, false) == 8 + k);
    assert(goes_on(t, 6));
    assert(!number_at(t, 6, false));
    assert(units_from(t, 6, false) == seq![literal] + units_from(t, 8 + k, false));
    assert(units_from(t, 6, false) == seq![literal]);
    assert(units_from(t, 5, false) == seq![literal]);
    // the word
    assert forall|j: int| 0 <= j < 5 implies !is_delimiter(#[trigger] t[j]) by {
        assert(t[j] == t.subrange(0, 5)[j]);
    }
    lemma_word_run(t, 0, 5);
    assert(t[0] == t.subrange(0, 5)[0]);
    assert(unit_end(t, 0, false) == 5);
    assert(units_from(t, 0, false) == seq!["print"@] + units_from(t, 5, false));
    assert(seq!["print"@] + seq![literal] =~= seq!["print"@, literal]);
}

/// A commented print statement has two tokens: the identifier `print` and
/// the string with the content as its text.
pub proof fn lemma_commented_print_tokens(content: Seq<char>, comment: Seq<char>)
    requires
        content.len() > 0,
        is_plain_content(content),
        is_comment(comment),
    ensures
        line_tokens(commented_print(content, comment)) == seq![
            identifier("print"@),
            TokenView { kind: TokenType::String, text: content },
        ],
{
    reveal_strlit("print");
    reveal_strlit("true");
    reveal_strlit("false");
    let literal = seq!['"'] + content + seq!['"'];
    let string = TokenView { kind: TokenType::String, text: content };
    lemma_commented_print_units(content, comment);
    assert(literal.len() == content.len() + 2);
    assert(literal.last() == '"');
    assert(literal[0] == '"');
    assert(string_content(literal) =~= content);
    assert(unit_token(literal) == string);
    assert(unit_token("print"@) == identifier("print"@));
    let none = Seq::<Seq<char>>::empty();
    assert(tokens_of_units(none) == Seq::<TokenView>::empty()) by {
        reveal(Seq::filter);
    }
    lemma_tokens_of_units_push(none, "print"@);
    lemma_tokens_of_units_push(none.push("print"@), literal);
    assert(none.push("print"@).push(literal) =~= seq!["print"@, literal]);
    assert(Seq::<TokenView>::empty().push(identifier("print"@)).push(string) =~= seq![
        identifier("print"@),
        string,
    ]);
}

/// A commented print statement is one statement line.
proof fn lemma_commented_print_one_line(content: Seq<char>, comment: Seq<char>)
    requires
        is_plain_content(content),
        is_comment(comment),
    ensures
        statement_lines(commented_print(content, comment)) == seq![
            commented_print(content, comment),
        ],
{
    reveal_strlit("print");
    let t = commented_print(content, comment);
    let k = content.len() as int;
    lemma_commented_print_chars(content, comment);
    assert forall|j: int| 0 <= j < t.len() implies !is_separator(#[trigger] t[j]) && t[j]
        != '\r' by {
        if j < 5 {
            assert(t[j] == t.subrange(0, 5)[j]);
        } else if j < 7 {
        } else if j < 7 + k {
            assert(t[j] == t.subrange(7, 7 + k)[j - 7]);
        } else if j < 9 + k {
        } else {
            assert(t[j] == t.subrange(9 + k, t.len() as int)[j - 9 - k]);
        }
    }
    lemma_one_line(t);
}

/// A text that is one statement line with tokens on it is a program of one
/// line, and running the program is evaluating that line as line zero.
pub proof fn lemma_one_line_program(s: ParserView, text: Seq<char>)
    requires
        statement_lines(text) == seq![text],
        line_tokens(text).len() > 0,
    ensures
        lex_program(text) == seq![line_tokens(text)],
        after_program(s, lex_program(text)) == after_line(s, line_tokens(text), 0),
{
    let none = Seq::<Seq<char>>::empty();
    assert(tokens_of_lines(none) == Seq::<Seq<TokenView>>::empty()) by {
        reveal(Seq::filter);
    }
    lemma_tokens_of_lines_push(none, text);
    assert(none.push(text) == seq![text]);
    let tokens = line_tokens(text);
    let program = lex_program(text);
    assert(program == seq![tokens]);
    assert(after_lines(after_line(s, tokens, 0), program, 1) == after_line(s, tokens, 0));
    assert(after_program(s, program) == after_line(s, tokens, 0)) by {
        reveal_with_fuel(after_lines, 2);
    }
}

/// A comment behind a statement is not part of it: for a string content that
/// is not empty and can stand between quotes as it is, and any comment, lexing
/// and evaluating `print "content" comment` enters exactly the content in the
/// journal as printed, and leaves the operand stack and the variables as they
/// were.
pub proof fn law_trailing_comment(s: ParserView, content: Seq<char>, comment: Seq<char>)
    requires
        !s.should_abort,
        content.len() > 0,
        is_plain_content(content),
        is_comment(comment),
    ensures
        ({
            let after = after_program(s, lex_program(commented_print(content, comment)));
            &&& after.events == s.events.push(
                EventView::Printed { text: content, emphasized: false },
            )
            &&& after.stack == s.stack
            &&& after.variables == s.variables
            &&& !after.should_abort
        }),
{
    let t = commented_print(content, comment);
    let string = TokenView { kind: TokenType::String, text: content };
    lemma_commented_print_tokens(content, comment);
    lemma_commented_print_one_line(content, comment);
    lemma_one_line_program(s, t);
    law_print_literal(s, 0, string);
}

} // verus!
