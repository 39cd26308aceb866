//! A scientific calculator core: text is cut into tokens, tokens are reordered
//! into postfix form by operator precedence, and the postfix form is run on a
//! value stack.
//!
//! Numbers are carried as the bit patterns of IEEE 754 binary64 values. The
//! library decides everything about an evaluation (stack discipline, division
//! by zero, the undefined tangent) and asks its caller for the arithmetic
//! itself, one operation at a time.
//!
//! The stages, in the order in which an expression passes them:
//!
//! - `lexer` cuts the text into tokens, with `constants` for the names that
//!   stand for numerals and `pattern` for the regular expression engine;
//! - `postfix` brings the tokens into postfix order;
//! - `eval` runs the postfix sequence, request by request;
//! - `calc` puts the three in a row, and `session` says what a line of input
//!   asks for.
//!
//! What the stages guarantee beyond their contracts is proved in `balance`
//! (when a postfix form exists), `provenance` (where its entries come from),
//! `meaning` (what a run computes) and `grammar` (that an expression comes to
//! the value of its tree).

pub mod text;
pub mod number;
pub mod token;
pub mod constants;
pub mod pattern;
pub mod lexer;
pub mod postfix;
pub mod balance;
pub mod provenance;
pub mod eval;
pub mod calc;
pub mod meaning;
pub mod grammar;
pub mod session;
