//! A small calculator core: a single expression buffer, an incremental
//! input validator that keeps the buffer inside a two-operand grammar,
//! and an evaluator that reduces a finished expression to a formatted
//! decimal string.
//!
//! `grammar` holds the expression grammar as a character automaton,
//! `validator` the keypad input rules over it, `eval` the evaluator, and
//! `buffer` the plain buffer operations and the display length governor.

pub mod buffer;
pub mod eval;
pub mod grammar;
pub mod validator;
