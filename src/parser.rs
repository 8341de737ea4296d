//! Matching a sequence of tokens against a declaration.
use vstd::prelude::*;

mod builder;
pub mod funcs;
pub mod lemmas;

pub use builder::ParsedArguments;
pub use builder::Value;

use crate::errors::Error;
use crate::errors::ErrorKind;
use crate::parser::funcs::assign_args_from;
use crate::parser::funcs::classify_from;
use crate::parser::funcs::help_token;
use crate::parser::funcs::holds_text;
use crate::parser::funcs::missing_arg_from;
use crate::parser::funcs::missing_flag_from;
use crate::parser::funcs::options_outcome;
use crate::parser::funcs::Failure;
use crate::Context;

verus! {

/// What a parse of `tokens` against `ctx` gives: the entries of the
/// arguments and of the flags, or the first error met.
///
/// `--help` anywhere wins over everything else. Otherwise the tokens are
/// classified, then checked for mandatory arguments, then for mandatory
/// flags (named by any token), then the arguments and the flags are given
/// their values.
pub open spec fn parse_outcome(tokens: Seq<String>, ctx: Context) -> Result<
    (Seq<(String, Value)>, Seq<(String, Value)>),
    Failure,
> {
    if holds_text(tokens, help_token()) {
        Err((ErrorKind::WantsHelp, Seq::empty()))
    } else {
        let (given, fv) = classify_from(tokens, ctx.flags@, 0);
        match missing_arg_from(ctx.args@, given.len() as int) {
            Some(e) => Err(e),
            None => match missing_flag_from(tokens, ctx.flags@, 0) {
                Some(e) => Err(e),
                None => match assign_args_from(ctx.args@, given, 0) {
                    Err(e) => Err(e),
                    Ok(a) => match options_outcome(fv, ctx.flags@) {
                        Err(e) => Err(e),
                        Ok(f) => Ok((a, f)),
                    },
                },
            },
        }
    }
}

/// What a call of `parse` returned, as entries or the error's kind and
/// message.
pub open spec fn outcome_of(r: Result<ParsedArguments, Error>) -> Result<
    (Seq<(String, Value)>, Seq<(String, Value)>),
    Failure,
> {
    match r {
        Ok(p) => Ok((p.arguments@, p.flags@)),
        Err(e) => Err(e@),
    }
}

/// Parses the command-line tokens (without the program's name) against the
/// declaration `ctx`.
pub fn parse(tokens: &[String], ctx: &Context) -> (r: Result<ParsedArguments, Error>)
    ensures
        outcome_of(r) == parse_outcome(tokens@, *ctx),
{
    if funcs::look_for_help(tokens) {
        return Err(Error::new(ErrorKind::WantsHelp, String::new()));
    }
    let (given, fv) = funcs::arguments_and_options(tokens, ctx);
    funcs::check_mandatory_args(given.as_slice(), ctx)?;
    funcs::check_mandatory_flags(tokens, ctx)?;
    let arguments = funcs::assign_arguments(given.as_slice(), ctx)?;
    let flags = funcs::assign_options(fv.as_slice(), ctx)?;
    Ok(ParsedArguments { arguments, flags })
}

} // verus!
