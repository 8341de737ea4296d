//! A small command-line parser: a declaration of positional arguments and
//! flags is matched against a sequence of tokens, giving a typed value for
//! every declared name or the first error met.
//!
//! The parse is a function of the tokens and the declaration alone; its
//! result is stated exactly by `parser::parse_outcome`, and the facts that
//! hold of every parse are proved in `parser::lemmas`.
use vstd::prelude::*;

pub mod builder;
pub mod errors;
pub mod help;
pub mod parser;
pub mod text;

pub use builder::arg::Arg;
pub use builder::context::Context;
pub use builder::flag::Flag;
pub use parser::parse;

verus! {

/// What a token, or a default, is turned into.
///
/// A `Bool` flag takes no value token: raising it gives `true`. A `Bool`
/// positional argument is `true` whenever a token fills it, whatever the
/// token says; only its default is read as the text `true` or `false`.
#[derive(Debug, Clone, Copy, PartialEq, Eq, Structural)]
pub enum Type {
    Int,
    Str,
    Bool,
}

} // verus!
