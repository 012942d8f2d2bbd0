//! A small interpreter for a line-oriented scripting language.
//!
//! A program is a text of statements, one per line or separated by `;`. The
//! lexer ([`lexer::Lexer`]) turns the text into lines of typed tokens; the
//! evaluator ([`parser::Parser`]) runs the lines in order against an operand
//! stack and a variable table, and keeps a journal of what was printed and of
//! the fault that stopped it, if one did.
//!
//! The tokens of a line are evaluated from the last back to the first.
//! Strings, numbers and Booleans are pushed on the stack, and an identifier
//! pushes the value of the variable that it names. `print` takes the top of
//! the stack and prints it. A binary operator takes the token before it in
//! the line as its left operand and the top of the stack as its right one,
//! so it stands between its operands: `print 1 + 2`, `x = "a" + "b"`,
//! `print x == "ab"`.
//!
//! What lexing and evaluation mean is stated over plain values in
//! [`grammar`] and [`semantics`]; the functions of [`lexer`] and [`parser`]
//! are proved to compute exactly that. What is proved of the language itself
//! is in [`shape`] (the tokens that lexing gives), [`laws`] (evaluation) and
//! [`sources`] (statements, from their characters to the journal).

pub mod fault;
pub mod grammar;
pub mod laws;
pub mod lexer;
pub mod number;
pub mod parser;
pub mod semantics;
pub mod shape;
pub mod sources;
pub mod table;
pub mod text;
