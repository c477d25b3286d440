//! An arithmetic expression language in three stages: a scanner that turns
//! text into tokens, a parser that turns tokens into a syntax tree by
//! precedence climbing, and the tree itself, which an evaluator reduces to a
//! number.
//!
//! The library holds the first two stages and the tree. It never computes with
//! numbers: a literal travels through it as its text, the previous answer as
//! the bit pattern of a double, and a named constant as its name. Evaluation
//! is floating-point arithmetic and is left to the caller.
//!
//! What the scanner and the parser compute is stated in [`tokenizer`] and
//! [`grammar`] as functions on sequences of characters. The remaining modules
//! prove what follows from those definitions: that no parse takes nothing
//! ([`progress`]), that every tree is complete ([`completeness`]), that its
//! numbers keep their places ([`leaves`]), that plain arithmetic is read in the
//! customary way ([`arithmetic`]), and that parsing is a function of the text
//! in which white space means nothing ([`laws`]). The one thing taken on trust
//! stands in [`std_specs`].

pub mod arithmetic;
pub mod ast;
pub mod completeness;
pub mod error;
pub mod grammar;
pub mod laws;
pub mod leaves;
pub mod parser;
pub mod progress;
pub mod std_specs;
pub mod token;
pub mod tokenizer;
pub mod whitespace;
