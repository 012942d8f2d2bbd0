//! Tokens, and the lexer that turns source text into lines of tokens.

use vstd::prelude::*;
use vstd::string::StringExecFns;
use crate::grammar::{
    comment_at, digits_end, goes_on, is_delimiter, is_kept, is_operator_char, is_space,
    is_symbol, lemma_tokens_of_lines_push, lemma_tokens_of_units_push, lemma_units_not_empty,
    lex_program, line_tokens, number_at, slashes_at, statement_lines, string_end,
    tokens_of_lines, tokens_of_units, unit_end, unit_token, units, units_from, word_end,
};
use crate::number::is_digit;
use crate::shape::{law_lexed_program_well_formed, well_formed_program};
use crate::text::{chars_of, push_char, string_of};

verus! {

/// The kind of a token.
#[derive(Debug, Clone, Copy, PartialEq, Eq, Structural)]
pub enum TokenType {
    Identifier,
    Number,
    String,
    Boolean,
    Operator,
    Symbol,
}

impl Default for TokenType {
    fn default() -> (kind: TokenType)
        ensures
            kind == TokenType::Identifier,
    {
        TokenType::Identifier
    }
}

/// A token: its kind and its literal text.
#[derive(Debug, PartialEq, Eq)]
pub struct Token {
    pub token_type: TokenType,
    pub value: String,
}

/// What a token is, as a plain value: its kind and the characters of its text.
pub struct TokenView {
    pub kind: TokenType,
    pub text: Seq<char>,
}

impl View for Token {
    type V = TokenView;

    open spec fn view(&self) -> TokenView {
        TokenView { kind: self.token_type, text: self.value@ }
    }
}

impl DeepView for Token {
    type V = TokenView;

    open spec fn deep_view(&self) -> TokenView {
        self@
    }
}

impl Default for Token {
    fn default() -> (token: Token)
        ensures
            token@ == (TokenView { kind: TokenType::Identifier, text: Seq::empty() }),
    {
        Token { token_type: TokenType::Identifier, value: String::new() }
    }
}

impl Clone for Token {
    fn clone(&self) -> (token: Token)
        ensures
            token@ == self@,
    {
        Token { token_type: self.token_type, value: self.value.clone() }
    }
}

/// Whether `c` is a blank.
fn space(c: char) -> (yes: bool)
    ensures
        yes == is_space(c),
{
    c == ' ' || c == '\t' || c == '\x0b' || c == '\x0c'
}

/// Whether `c` is a bracket.
fn symbol(c: char) -> (yes: bool)
    ensures
        yes == is_symbol(c),
{
    c == '(' || c == ')' || c == '[' || c == ']' || c == '{' || c == '}'
}

/// Whether `c` is a character that operators are made of.
fn operator_char(c: char) -> (yes: bool)
    ensures
        yes == is_operator_char(c),
{
    c == '=' || c == '+' || c == '-' || c == '*' || c == '/' || c == '^' || c == '!' || c == '>'
        || c == '<' || c == '&' || c == '|'
}

/// Whether `c` ends a word.
fn delimiter(c: char) -> (yes: bool)
    ensures
        yes == is_delimiter(c),
{
    space(c) || symbol(c) || operator_char(c) || c == '"' || c == '#'
}

/// Whether `c` is a decimal digit.
fn digit(c: char) -> (yes: bool)
    ensures
        yes == is_digit(c),
{
    c >= '0' && c <= '9'
}

/// Whether the marker `//` stands at `i`.
fn slashes(s: &Vec<char>, i: usize) -> (yes: bool)
    requires
        i < s.len(),
    ensures
        yes == slashes_at(s@, i as int),
{
    s[i] == '/' && i + 1 < s.len() && s[i + 1] == '/'
}

/// Finds the end of the run of digits that begins at `i`.
fn scan_digits(s: &Vec<char>, i: usize) -> (e: usize)
    requires
        i <= s.len(),
    ensures
        e == digits_end(s@, i as int),
        i <= e <= s.len(),
{
    let mut e: usize = i;
    while e < s.len() && digit(s[e])
        invariant
            i <= e <= s.len(),
            digits_end(s@, i as int) == digits_end(s@, e as int),
        decreases s.len() - e,
    {
        e += 1;
    }
    e
}

/// Finds the end of the word that begins at `i`.
fn scan_word(s: &Vec<char>, i: usize) -> (e: usize)
    requires
        i <= s.len(),
    ensures
        e == word_end(s@, i as int),
        i <= e <= s.len(),
{
    let mut e: usize = i;
    while e < s.len() && !delimiter(s[e])
        invariant
            i <= e <= s.len(),
            word_end(s@, i as int) == word_end(s@, e as int),
        decreases s.len() - e,
    {
        e += 1;
    }
    e
}

/// Finds the end of the string content that begins at `i`.
fn scan_string(s: &Vec<char>, i: usize) -> (e: usize)
    requires
        i <= s.len(),
    ensures
        e == string_end(s@, i as int),
        i <= e <= s.len(),
{
    let mut e: usize = i;
    while e < s.len() && s[e] != '"' && !slashes(s, e)
        invariant
            i <= e <= s.len(),
            string_end(s@, i as int) == string_end(s@, e as int),
        decreases s.len() - e,
    {
        e += 1;
    }
    e
}

/// Finds the end of the lexical unit that begins at `i`, and tells whether
/// scanning goes on behind it.
fn scan_unit(s: &Vec<char>, i: usize, after_number: bool) -> (found: (usize, bool))
    requires
        i < s.len(),
        !is_space(s@[i as int]),
        !comment_at(s@, i as int),
    ensures
        found.0 == unit_end(s@, i as int, after_number),
        found.1 == goes_on(s@, i as int),
        i < found.0 <= s.len(),
{
    let c = s[i];
    if c == '"' {
        let e = scan_string(s, i + 1);
        if e < s.len() && s[e] == '"' {
            (e + 1, true)
        } else {
            (e, false)
        }
    } else if digit(c) {
        (scan_digits(s, i + 1), true)
    } else if c == '-' && !after_number && i + 1 < s.len() && digit(s[i + 1]) {
        (scan_digits(s, i + 1), true)
    } else if symbol(c) {
        (i + 1, true)
    } else if operator_char(c) {
        if i + 1 < s.len() && (s[i + 1] == '=' || (c == '&' && s[i + 1] == '&') || (c == '|' && s[i
            + 1] == '|')) {
            (i + 2, true)
        } else {
            (i + 1, true)
        }
    } else {
        (scan_word(s, i + 1), true)
    }
}

/// Cuts a source text into its statement lines.
fn split_lines(code: &str) -> (lines: Vec<String>)
    ensures
        lines.deep_view() == statement_lines(code@),
{
    let chars = chars_of(code);
    let mut lines: Vec<String> = Vec::new();
    let mut current = String::new();
    let mut i: usize = 0;
    while i < chars.len()
        invariant
            i <= chars.len(),
            statement_lines(chars@.take(i as int)) == lines.deep_view().push(current@),
        decreases chars.len() - i,
    {
        let c = chars[i];
        let ghost before = lines.deep_view();
        let ghost line = current@;
        proof {
            assert(chars@.take(i + 1).drop_last() == chars@.take(i as int));
            assert(chars@.take(i + 1).last() == c);
            assert(before.push(line).drop_last() == before);
        }
        if c == '\n' || c == ';' {
            lines.push(current);
            current = String::new();
            assert(lines.deep_view() == before.push(line));
        } else if c != '\r' {
            push_char(&mut current, c);
        }
        i += 1;
    }
    proof {
        assert(chars@.take(chars.len() as int) == chars@);
    }
    let ghost before = lines.deep_view();
    lines.push(current);
    assert(lines.deep_view() == before.push(current@));
    lines
}

/// Gives the token that a lexical unit stands for.
fn token_of_unit(unit: &String) -> (token: Token)
    ensures
        token@ == unit_token(unit@),
{
    let chars = chars_of(unit.as_str());
    let n = chars.len();
    if n == 0 {
        return Token { token_type: TokenType::Identifier, value: unit.clone() };
    }
    let c = chars[0];
    if c == '"' {
        let end: usize = if n >= 2 && chars[n - 1] == '"' {
            n - 1
        } else {
            n
        };
        Token { token_type: TokenType::String, value: string_of(&chars, 1, end) }
    } else if digit(c) || (c == '-' && n >= 2 && digit(chars[1])) {
        Token { token_type: TokenType::Number, value: unit.clone() }
    } else if symbol(c) {
        Token { token_type: TokenType::Symbol, value: unit.clone() }
    } else if operator_char(c) {
        Token { token_type: TokenType::Operator, value: unit.clone() }
    } else if *unit == String::from_str("true") || *unit == String::from_str("false") {
        Token { token_type: TokenType::Boolean, value: unit.clone() }
    } else {
        Token { token_type: TokenType::Identifier, value: unit.clone() }
    }
}

/// The lexical units of the line that the lexer split last, kept so that a
/// line is split once. The line number `usize::MAX` stands for no line.
struct TokenizedLine {
    line_number: usize,
    tokens: Vec<String>,
}

impl TokenizedLine {
    /// No line kept.
    fn none() -> (kept: TokenizedLine)
        ensures
            kept.line_number == usize::MAX,
            kept.tokens@.len() == 0,
    {
        TokenizedLine { line_number: usize::MAX, tokens: Vec::new() }
    }
}

/// A program as the lexer hands it on: its token lines, in source order.
pub type LexedTokenLines = Vec<Vec<Token>>;

/// The lexer's working state.
pub struct Lexer {
    token: Token,
    token_index: usize,
    tokenized_line: TokenizedLine,
    local_tokens: Vec<Token>,
}

/// The lexer's working state as plain values.
pub struct LexerView {
    /// The token in progress.
    pub token: TokenView,
    /// The position, among the units of the line at hand, of the unit that
    /// comes next.
    pub token_index: nat,
    /// The number of the line whose units are kept, or `usize::MAX` for none.
    pub kept_line: nat,
    /// The units that are kept for that line.
    pub kept_units: Seq<Seq<char>>,
    /// The tokens found so far on the line at hand.
    pub local_tokens: Seq<TokenView>,
}

impl LexerView {
    /// The state of a lexer at rest: nothing in progress, nothing kept.
    pub open spec fn idle() -> LexerView {
        LexerView {
            token: TokenView { kind: TokenType::Identifier, text: Seq::empty() },
            token_index: 0,
            kept_line: usize::MAX as nat,
            kept_units: Seq::empty(),
            local_tokens: Seq::empty(),
        }
    }

    /// Whether the units that are kept, if they are kept for line `line_index`,
    /// are the units of `line`.
    pub open spec fn keeps_nothing_else(self, line_index: nat, line: Seq<char>) -> bool {
        self.kept_line == line_index ==> self.kept_units == units(line)
    }
}

impl View for Lexer {
    type V = LexerView;

    closed spec fn view(&self) -> LexerView {
        LexerView {
            token: self.token@,
            token_index: self.token_index as nat,
            kept_line: self.tokenized_line.line_number as nat,
            kept_units: self.tokenized_line.tokens.deep_view(),
            local_tokens: self.local_tokens.deep_view(),
        }
    }
}

impl Default for Lexer {
    fn default() -> (lexer: Lexer)
        ensures
            lexer@ == LexerView::idle(),
    {
        let lexer = Lexer {
            token: Token::default(),
            token_index: 0,
            tokenized_line: TokenizedLine::none(),
            local_tokens: Vec::new(),
        };
        assert(lexer.tokenized_line.tokens.deep_view() == Seq::<Seq<char>>::empty());
        assert(lexer.local_tokens.deep_view() == Seq::<TokenView>::empty());
        lexer
    }
}

impl Lexer {
    /// Splits one statement line into its lexical units, in source order.
    /// Blanks separate units and belong to none; a comment ends the line.
    pub fn split_tokens(&self, text: String) -> (found: Vec<String>)
        ensures
            found.deep_view() == units(text@),
    {
        let s = chars_of(text.as_str());
        let mut found: Vec<String> = Vec::new();
        let mut i: usize = 0;
        let mut after_number = false;
        let mut open = true;
        assert(found.deep_view() == Seq::<Seq<char>>::empty());
        while open && i < s.len()
            invariant
                i <= s.len(),
                s@ == text@,
                units(s@) == found.deep_view() + (if open {
                    units_from(s@, i as int, after_number)
                } else {
                    Seq::empty()
                }),
            decreases (s.len() - i) + (if open {
                1int
            } else {
                0int
            }),
        {
            let c = s[i];
            if space(c) {
                i += 1;
                after_number = false;
            } else if c == '#' || slashes(&s, i) {
                open = false;
            } else {
                let (e, more) = scan_unit(&s, i, after_number);
                let unit = string_of(&s, i, e);
                let numeric = digit(c) || (c == '-' && !after_number && i + 1 < s.len() && digit(
                    s[i + 1],
                ));
                let ghost before = found.deep_view();
                let ghost rest = if more {
                    units_from(s@, e as int, numeric)
                } else {
                    Seq::empty()
                };
                proof {
                    assert(numeric == number_at(s@, i as int, after_number));
                    assert(units_from(s@, i as int, after_number) == seq![unit@] + rest);
                    assert(before + (seq![unit@] + rest) == before.push(unit@) + rest);
                }
                found.push(unit);
                assert(found.deep_view() == before.push(unit@));
                if more {
                    i = e;
                    after_number = numeric;
                } else {
                    open = false;
                }
            }
        }
        found
    }

    /// Hands out the lexical unit that comes next on line `line_index`, or the
    /// empty text when the line has no unit left. The line is split when its
    /// units are not the ones kept, and its units are kept from then on.
    pub fn current_token(&mut self, lines: &[&str], line_index: usize) -> (unit: String)
        requires
            line_index < lines.len(),
            old(self)@.keeps_nothing_else(line_index as nat, lines[line_index as int]@),
        ensures
            final(self)@ == (LexerView {
                kept_line: line_index as nat,
                kept_units: units(lines[line_index as int]@),
                ..old(self)@
            }),
            unit@ == if old(self)@.token_index < units(lines[line_index as int]@).len() {
                units(lines[line_index as int]@)[old(self)@.token_index as int]
            } else {
                Seq::empty()
            },
    {
        if self.tokenized_line.line_number != line_index {
            let found = self.split_tokens(String::from_str(lines[line_index]));
            self.tokenized_line.tokens = found;
            self.tokenized_line.line_number = line_index;
        }
        if self.token_index >= self.tokenized_line.tokens.len() {
            return String::new();
        }
        self.tokenized_line.tokens[self.token_index].clone()
    }

    /// Takes `token` as the token in progress, in place of the one that was.
    pub fn begin_token(&mut self, token: Token)
        ensures
            final(self)@ == (LexerView { token: token@, ..old(self)@ }),
    {
        self.token = token;
    }

    /// Ends the token in progress and begins a fresh one. A token with a text
    /// joins the tokens of the line, and the lexer moves on to the next unit.
    /// A token without a text is dropped: the tokens of the line and the place
    /// among the units stay as they are.
    pub fn push_token(&mut self)
        requires
            is_kept(old(self)@.token) ==> old(self)@.token_index < usize::MAX,
        ensures
            final(self)@ == (LexerView {
                token: LexerView::idle().token,
                token_index: if is_kept(old(self)@.token) {
                    old(self)@.token_index + 1
                } else {
                    old(self)@.token_index
                },
                local_tokens: if is_kept(old(self)@.token) {
                    old(self)@.local_tokens.push(old(self)@.token)
                } else {
                    old(self)@.local_tokens
                },
                ..old(self)@
            }),
    {
        if self.token.value.as_str().is_empty() {
            self.token = Token::default();
            return;
        }
        let ghost before = self.local_tokens.deep_view();
        let token = self.token.clone();
        self.local_tokens.push(token);
        assert(self.local_tokens.deep_view() == before.push(token@));
        self.token = Token::default();
        self.token_index += 1;
    }

    /// Puts the lexer at rest: nothing in progress, nothing kept.
    fn rest(&mut self)
        ensures
            final(self)@ == LexerView::idle(),
    {
        self.token = Token::default();
        self.token_index = 0;
        self.tokenized_line = TokenizedLine::none();
        self.local_tokens = Vec::new();
        assert(self.tokenized_line.tokens.deep_view() == Seq::<Seq<char>>::empty());
        assert(self.local_tokens.deep_view() == Seq::<TokenView>::empty());
    }

    /// Turns a source text into its token lines: one line of tokens for each
    /// statement line that holds a token, in source order. No line that comes
    /// out is empty, and every token is well formed. Whatever state the lexer
    /// was in is dropped first, and the lexer is left at rest.
    pub fn lex_code(&mut self, code: String) -> (program: LexedTokenLines)
        ensures
            program.deep_view() == lex_program(code@),
            well_formed_program(program.deep_view()),
            final(self)@ == LexerView::idle(),
    {
        let owned = split_lines(code.as_str());
        let mut lines: Vec<&str> = Vec::new();
        for k in 0..owned.len()
            invariant
                lines.len() == k,
                forall|j: int| 0 <= j < k ==> lines[j]@ == owned[j]@,
        {
            lines.push(owned[k].as_str());
        }
        assert(lines.deep_view() =~= owned.deep_view());
        self.rest();
        let mut global_tokens: Vec<Vec<Token>> = Vec::new();
        let mut line_index: usize = 0;
        assert(lines.deep_view().take(0) == Seq::<Seq<char>>::empty());
        assert(global_tokens.deep_view() == Seq::<Seq<TokenView>>::empty());
        assert(tokens_of_lines(Seq::empty()) == Seq::<Seq<TokenView>>::empty()) by {
            reveal(Seq::filter);
        }
        while line_index < lines.len()
            invariant
                line_index <= lines.len(),
                lines.deep_view() == statement_lines(code@),
                self@.token == LexerView::idle().token,
                self@.local_tokens == Seq::<TokenView>::empty(),
                self@.kept_line == usize::MAX || self@.kept_line < line_index,
                global_tokens.deep_view() == tokens_of_lines(
                    lines.deep_view().take(line_index as int),
                ),
            decreases lines.len() - line_index,
        {
            let ghost line = lines[line_index as int]@;
            self.token_index = 0;
            let mut more = true;
            proof {
                assert(units(line).take(0) == Seq::<Seq<char>>::empty());
                assert(tokens_of_units(Seq::empty()) == Seq::<TokenView>::empty()) by {
                    reveal(Seq::filter);
                }
            }
            while more
                invariant
                    line_index < lines.len(),
                    line == lines[line_index as int]@,
                    self@.keeps_nothing_else(line_index as nat, line),
                    self@.kept_line == usize::MAX || self@.kept_line <= line_index,
                    self@.token_index <= units(line).len(),
                    !more ==> self@.token_index == units(line).len(),
                    self@.token == LexerView::idle().token,
                    self@.local_tokens == tokens_of_units(
                        units(line).take(self@.token_index as int),
                    ),
                decreases
                        units(line).len() - self@.token_index + (if more {
                            1int
                        } else {
                            0int
                        }),
            {
                let ghost at = self@.token_index as int;
                let unit = self.current_token(lines.as_slice(), line_index);
                if unit.as_str().is_empty() {
                    proof {
                        if at < units(line).len() {
                            lemma_units_not_empty(line, 0, false, at);
                        }
                    }
                    more = false;
                } else {
                    assert(units(line).len() == self.tokenized_line.tokens.len());
                    self.begin_token(token_of_unit(&unit));
                    let kept = !self.token.value.as_str().is_empty();
                    self.push_token();
                    if !kept {
                        // The unit gave no token, so the lexer steps over it.
                        self.token_index += 1;
                    }
                    proof {
                        assert(units(line).take(at + 1) == units(line).take(at).push(unit@));
                        lemma_tokens_of_units_push(units(line).take(at), unit@);
                    }
                }
            }
            proof {
                assert(units(line).take(units(line).len() as int) == units(line));
                assert(lines.deep_view().take(line_index + 1) == lines.deep_view().take(
                    line_index as int,
                ).push(line));
                lemma_tokens_of_lines_push(lines.deep_view().take(line_index as int), line);
            }
            if self.local_tokens.len() > 0 {
                let ghost before = global_tokens.deep_view();
                let mut found: Vec<Token> = Vec::new();
                std::mem::swap(&mut self.local_tokens, &mut found);
                global_tokens.push(found);
                assert(global_tokens.deep_view() == before.push(line_tokens(line)));
                assert(self.local_tokens.deep_view() == Seq::<TokenView>::empty());
            }
            line_index += 1;
        }
        proof {
            assert(lines.deep_view().take(lines.len() as int) == lines.deep_view());
            law_lexed_program_well_formed(code@);
        }
        self.rest();
        global_tokens
    }
}

} // verus!
