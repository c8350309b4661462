//! TurtlicoScript: a small expression-oriented scripting language with a
//! lexer, a parser and a tree-walking interpreter, verified with Verus.
//!
//! From text to value:
//!
//! - [`lexer`] reads source text into [`tokens`]; its contract is the
//!   function [`lexer::lexemes_of`].
//! - [`grammar`] is the grammar, as a function from tokens to a tree;
//!   [`parser`] is the parser, proved to give what the grammar gives;
//!   [`shape`] proves that a program parsed from its text and from its
//!   tokens is the same tree but for the spans.
//! - [`ast`] is the tree, [`value`] the values, [`scope`] the scopes and
//!   objects (tables of [`table`]), [`operators`] the operators.
//! - [`semantics`] says what a program means; [`interpreter`] is the
//!   evaluator, proved to give that meaning wherever the program decides
//!   it; [`frame`] and [`laws`] prove laws of the language from it.
//! - [`stdlib`] is the base library, [`native`] helps to write others,
//!   [`program`] holds programs as an editor of blocks keeps them, and
//!   [`error`] the errors and how they are shown in the source.
//!
//! The library holds no floating-point arithmetic and does no input or
//! output. Both are the host's, which hands them in as a [`value::Host`]:
//! the library decides when two floats are added and what is printed, the
//! host adds and prints. Contracts name what the host's arithmetic gives
//! (`sum_of`, `order_of`, ...) and what a native library answers
//! ([`value::LibraryContext::gives`]) without saying what it is: of the
//! host's and the libraries' answers nothing else is assumed.
//!
//! A run has a budget of nodes that it may evaluate
//! ([`interpreter::Context::budget`]). A program that uses it up is
//! interrupted, as one whose host has set the cancellation flag is. The
//! budget of a new context is the largest there is.

pub mod ast;
pub mod cancel;
pub mod error;
pub mod frame;
pub mod grammar;
pub mod interpreter;
pub mod laws;
pub mod lexer;
pub mod native;
pub mod operators;
pub mod parser;
pub mod program;
pub mod scope;
pub mod semantics;
pub mod shape;
pub mod stdlib;
pub mod table;
pub mod text;
pub mod tokens;
pub mod value;
