//! The phases of a parse: the help check, classification of the tokens,
//! the checks for mandatory arguments and flags, and the assignment of
//! values to arguments and flags.
use vstd::prelude::*;

use crate::builder::context::escape_marker;
use crate::builder::context::first_index;
use crate::builder::context::flag_names;
use crate::builder::arg::Arg;
use crate::builder::flag::Flag;
use crate::errors::Error;
use crate::errors::ErrorKind;
use crate::parser::Value;
use crate::text::debug_of;
use crate::text::debug_text;
use crate::text::int_error_text;
use crate::text::int_of;
use crate::text::lower_of;
use crate::text::lowercase;
use crate::text::parse_int;
use crate::text::same_text;
use crate::text::trim_of;
use crate::text::trimmed;
use crate::text::upper_of;
use crate::text::uppercase;
use crate::Context;
use crate::Type;

verus! {

/// The token that asks for the help text.
pub open spec fn help_token() -> Seq<char> {
    "--help"@
}

/// Whether some token of `tokens` is `t`.
pub open spec fn holds_text(tokens: Seq<String>, t: Seq<char>) -> bool {
    exists|i: int| 0 <= i < tokens.len() && tokens[i]@ == t
}

/// The position of the flag that the token `t` raises, or -1.
pub open spec fn raised(flags: Seq<Flag>, t: Seq<char>) -> int {
    first_index(flag_names(flags), t)
}

/// Splits the tokens from position `p` on into positional tokens and flag
/// tokens with their values. A `Bool` flag takes no value; another flag takes
/// the next token, or the token after an escape marker.
pub open spec fn classify_from(tokens: Seq<String>, flags: Seq<Flag>, p: int) -> (
    Seq<String>,
    Seq<String>,
)
    decreases tokens.len() - p,
{
    if p < 0 || p >= tokens.len() {
        (Seq::empty(), Seq::empty())
    } else {
        let k = raised(flags, tokens[p]@);
        if k < 0 {
            let rest = classify_from(tokens, flags, p + 1);
            (seq![tokens[p]] + rest.0, rest.1)
        } else if flags[k].ty == Type::Bool {
            let rest = classify_from(tokens, flags, p + 1);
            (rest.0, seq![tokens[p]] + rest.1)
        } else if p + 1 >= tokens.len() {
            (Seq::empty(), seq![tokens[p]])
        } else if tokens[p + 1]@ == escape_marker() && p + 2 < tokens.len() {
            let rest = classify_from(tokens, flags, p + 3);
            (rest.0, seq![tokens[p], tokens[p + 1], tokens[p + 2]] + rest.1)
        } else {
            let rest = classify_from(tokens, flags, p + 2);
            (rest.0, seq![tokens[p], tokens[p + 1]] + rest.1)
        }
    }
}

/// Whether `--help` is among the tokens.
pub(crate) fn look_for_help(tokens: &[String]) -> (r: bool)
    ensures
        r == holds_text(tokens@, help_token()),
{
    let help = String::from_str("--help");
    holds(tokens, &help)
}

/// Whether some token is `t`.
pub(crate) fn holds(tokens: &[String], t: &String) -> (r: bool)
    ensures
        r == holds_text(tokens@, t@),
{
    let mut i: usize = 0;
    while i < tokens.len()
        invariant
            i <= tokens@.len(),
            forall|j: int| 0 <= j < i ==> tokens@[j]@ != t@,
        decreases tokens@.len() - i,
    {
        if tokens[i] == *t {
            return true;
        }
        i = i + 1;
    }
    false
}

/// Splits the tokens into positional tokens and flag tokens with their
/// values.
pub(crate) fn arguments_and_options(tokens: &[String], ctx: &Context) -> (r: (
    Vec<String>,
    Vec<String>,
))
    ensures
        (r.0@, r.1@) == classify_from(tokens@, ctx.flags@, 0),
{
    let n = tokens.len();
    let marker = String::from_str("--");
    let mut positional: Vec<String> = Vec::new();
    let mut flagged: Vec<String> = Vec::new();
    let mut p: usize = 0;
    while p < n
        invariant
            n == tokens@.len(),
            p <= n,
            marker@ == escape_marker(),
            classify_from(tokens@, ctx.flags@, 0) == (
                positional@ + classify_from(tokens@, ctx.flags@, p as int).0,
                flagged@ + classify_from(tokens@, ctx.flags@, p as int).1,
            ),
        decreases n - p,
    {
        let ghost pos0 = positional@;
        let ghost fl0 = flagged@;
        match ctx.flag_position(tokens[p].as_str()) {
            None => {
                positional.push(tokens[p].clone());
                proof {
                    let rest = classify_from(tokens@, ctx.flags@, p + 1);
                    assert(pos0 + (seq![tokens@[p as int]] + rest.0) =~= positional@ + rest.0);
                }
                p = p + 1;
            },
            Some(k) => {
                if matches!(ctx.flags[k].ty, Type::Bool) {
                    flagged.push(tokens[p].clone());
                    proof {
                        let rest = classify_from(tokens@, ctx.flags@, p + 1);
                        assert(fl0 + (seq![tokens@[p as int]] + rest.1) =~= flagged@ + rest.1);
                    }
                    p = p + 1;
                } else if p + 1 >= n {
                    flagged.push(tokens[p].clone());
                    proof {
                        assert(fl0 + seq![tokens@[p as int]] =~= flagged@);
                        assert(pos0 + Seq::<String>::empty() =~= pos0);
                        assert(flagged@ + Seq::<String>::empty() =~= flagged@);
                        assert(positional@ + Seq::<String>::empty() =~= positional@);
                    }
                    p = n;
                } else if tokens[p + 1] == marker && p + 2 < n {
                    flagged.push(tokens[p].clone());
                    flagged.push(tokens[p + 1].clone());
                    flagged.push(tokens[p + 2].clone());
                    proof {
                        let rest = classify_from(tokens@, ctx.flags@, p + 3);
                        assert(fl0 + (seq![tokens@[p as int], tokens@[p + 1], tokens@[p + 2]] + rest.1)
                            =~= flagged@ + rest.1);
                    }
                    p = p + 3;
                } else {
                    flagged.push(tokens[p].clone());
                    flagged.push(tokens[p + 1].clone());
                    proof {
                        let rest = classify_from(tokens@, ctx.flags@, p + 2);
                        assert(fl0 + (seq![tokens@[p as int], tokens@[p + 1]] + rest.1) =~= flagged@ + rest.1);
                    }
                    p = p + 2;
                }
            },
        }
    }
    proof {
        assert(positional@ + Seq::<String>::empty() =~= positional@);
        assert(flagged@ + Seq::<String>::empty() =~= flagged@);
    }
    (positional, flagged)
}

/// The kind and message of an error.
pub type Failure = (ErrorKind, Seq<char>);

/// The first of the arguments from position `i` on that is mandatory, as an
/// error; `None` where there is none.
pub open spec fn missing_arg_from(args: Seq<Arg>, i: int) -> Option<Failure>
    decreases args.len() - i,
{
    if i < 0 || i >= args.len() {
        None
    } else if args[i].is_mandatory {
        Some((ErrorKind::MissingArgument, "Missing argument `<"@ + upper_of(args[i].name@) + ">`"@))
    } else {
        missing_arg_from(args, i + 1)
    }
}

/// The first mandatory flag, from position `j` on, that no token names, as
/// an error; `None` where there is none.
pub open spec fn missing_flag_from(tokens: Seq<String>, flags: Seq<Flag>, j: int) -> Option<Failure>
    decreases flags.len() - j,
{
    if j < 0 || j >= flags.len() {
        None
    } else if flags[j].is_mandatory && !holds_text(tokens, flags[j].name@) {
        Some((ErrorKind::MissingFlag, "Missing flag `<"@ + upper_of(flags[j].name@) + ">`"@))
    } else {
        missing_flag_from(tokens, flags, j + 1)
    }
}

/// Builds `head`, then `middle`, then `tail`.
fn join3(head: &str, middle: &str, tail: &str) -> (r: String)
    ensures
        r@ == head@ + middle@ + tail@,
{
    let mut m = String::from_str(head);
    m.append(middle);
    m.append(tail);
    m
}

/// Checks that a token was given for each mandatory argument, where
/// `given` tokens fill the first arguments.
pub(crate) fn check_mandatory_args(given: &[String], ctx: &Context) -> (r: Result<(), Error>)
    ensures
        match missing_arg_from(ctx.args@, given@.len() as int) {
            None => r is Ok,
            Some(e) => r matches Err(err) && err@ == e,
        },
{
    let mut i: usize = given.len();
    while i < ctx.args.len()
        invariant
            given@.len() <= i <= ctx.args@.len() || (i == given@.len() && i > ctx.args@.len()),
            missing_arg_from(ctx.args@, given@.len() as int) == missing_arg_from(ctx.args@, i as int),
        decreases ctx.args@.len() - i,
    {
        if ctx.args[i].is_mandatory {
            let upper = uppercase(ctx.args[i].name.as_str());
            return Err(Error::new(ErrorKind::MissingArgument, join3("Missing argument `<", upper.as_str(), ">`")));
        }
        i = i + 1;
    }
    Ok(())
}

/// Checks that each mandatory flag is named by some token.
pub(crate) fn check_mandatory_flags(tokens: &[String], ctx: &Context) -> (r: Result<(), Error>)
    ensures
        match missing_flag_from(tokens@, ctx.flags@, 0) {
            None => r is Ok,
            Some(e) => r matches Err(err) && err@ == e,
        },
{
    let mut j: usize = 0;
    while j < ctx.flags.len()
        invariant
            j <= ctx.flags@.len(),
            missing_flag_from(tokens@, ctx.flags@, 0) == missing_flag_from(tokens@, ctx.flags@, j as int),
        decreases ctx.flags@.len() - j,
    {
        if ctx.flags[j].is_mandatory && !holds(tokens, &ctx.flags[j].name) {
            let upper = uppercase(ctx.flags[j].name.as_str());
            return Err(Error::new(ErrorKind::MissingFlag, join3("Missing flag `<", upper.as_str(), ">`")));
        }
        j = j + 1;
    }
    Ok(())
}

/// A list of named values, or the error that stopped it.
pub type Entries = Result<Seq<(String, Value)>, Failure>;

/// `done`, followed by what `rest` holds; or the error of `rest`.
pub open spec fn prepend(done: Seq<(String, Value)>, rest: Entries) -> Entries {
    match rest {
        Ok(s) => Ok(done + s),
        Err(e) => Err(e),
    }
}

/// A default of a `Bool` field: `true` or `false`, ignoring case and the
/// whitespace around it.
pub open spec fn bool_of(d: Seq<char>) -> Option<bool> {
    let l = lower_of(trim_of(d));
    if l == "true"@ {
        Some(true)
    } else if l == "false"@ {
        Some(false)
    } else {
        None
    }
}

/// The value of argument `a` read from the token `t`: a `Bool` argument is
/// `true` whatever the token.
pub open spec fn arg_token_value(a: Arg, t: String) -> Result<Value, Failure> {
    match a.ty {
        Type::Str => Ok(Value::Str(t)),
        Type::Bool => Ok(Value::Bool(true)),
        Type::Int => match int_of(t@) {
            Ok(v) => Ok(Value::Int(v as i32)),
            Err(e) => Err((ErrorKind::Other, "Ref: `<"@ + upper_of(a.name@) + ">`, "@ + int_error_text(e))),
        },
    }
}

/// The value of argument `a` read from its default `d`.
pub open spec fn arg_default_value(a: Arg, d: String) -> Result<Value, Failure> {
    match a.ty {
        Type::Bool => match bool_of(d@) {
            Some(b) => Ok(Value::Bool(b)),
            None => Err((ErrorKind::Other, "Unparsable default value "@ + debug_of(lower_of(trim_of(d@))))),
        },
        _ => arg_token_value(a, d),
    }
}

/// The value of the `i`th argument, where `given` fill the first arguments.
pub open spec fn arg_slot(a: Arg, given: Seq<String>, i: int) -> Result<Value, Failure> {
    if i < given.len() {
        arg_token_value(a, given[i])
    } else {
        match a.default {
            Some(d) => arg_default_value(a, d),
            None => Ok(Value::Null),
        }
    }
}

/// The entries of the arguments from position `i` on.
pub open spec fn assign_args_from(args: Seq<Arg>, given: Seq<String>, i: int) -> Entries
    decreases args.len() - i,
{
    if i < 0 || i >= args.len() {
        Ok(Seq::empty())
    } else {
        match arg_slot(args[i], given, i) {
            Err(e) => Err(e),
            Ok(v) => prepend(seq![(args[i].name, v)], assign_args_from(args, given, i + 1)),
        }
    }
}

/// Reads `t` as an integer; `label` names the field in the error.
fn int_value(t: &String, label: &str) -> (r: Result<Value, Error>)
    ensures
        match int_of(t@) {
            Ok(v) => r matches Ok(x) && x == Value::Int(v as i32),
            Err(e) => r matches Err(err) && err@ == (ErrorKind::Other, "Ref: "@ + label@ + ", "@ + int_error_text(e)),
        },
{
    match parse_int(t.as_str()) {
        Ok(v) => Ok(Value::Int(v)),
        Err(e) => {
            let mut m = join3("Ref: ", label, ", ");
            let text = e.message();
            m.append(text.as_str());
            Err(Error::new(ErrorKind::Other, m))
        },
    }
}

/// Reads a default of a `Bool` field.
fn bool_value(d: &String) -> (r: Result<bool, String>)
    ensures
        match bool_of(d@) {
            Some(b) => r == Ok::<bool, String>(b),
            None => r matches Err(l) && l@ == lower_of(trim_of(d@)),
        },
{
    let l = lowercase(trimmed(d.as_str()));
    if same_text(l.as_str(), "true") {
        Ok(true)
    } else if same_text(l.as_str(), "false") {
        Ok(false)
    } else {
        Err(l)
    }
}

fn arg_token(a: &Arg, t: &String) -> (r: Result<Value, Error>)
    ensures
        match arg_token_value(*a, *t) {
            Ok(v) => r matches Ok(x) && x == v,
            Err(e) => r matches Err(err) && err@ == e,
        },
{
    match a.ty {
        Type::Str => Ok(Value::Str(t.clone())),
        Type::Bool => Ok(Value::Bool(true)),
        Type::Int => {
            let upper = uppercase(a.name.as_str());
            let label = join3("`<", upper.as_str(), ">`");
            proof {
                assert("Ref: "@ + label@ + ", "@ =~= "Ref: `<"@ + upper_of(a.name@) + ">`, "@) by {
                    reveal_strlit("Ref: ");
                    reveal_strlit(", ");
                    reveal_strlit("`<");
                    reveal_strlit(">`");
                    reveal_strlit("Ref: `<");
                    reveal_strlit(">`, ");
                }
            }
            int_value(t, label.as_str())
        },
    }
}

fn arg_value(a: &Arg, given: &[String], i: usize) -> (r: Result<Value, Error>)
    ensures
        match arg_slot(*a, given@, i as int) {
            Ok(v) => r matches Ok(x) && x == v,
            Err(e) => r matches Err(err) && err@ == e,
        },
{
    if i < given.len() {
        return arg_token(a, &given[i]);
    }
    match &a.default {
        None => Ok(Value::Null),
        Some(d) => {
            if matches!(a.ty, Type::Bool) {
                match bool_value(d) {
                    Ok(b) => Ok(Value::Bool(b)),
                    Err(l) => {
                        let mut m = String::from_str("Unparsable default value ");
                        let quoted = debug_text(l.as_str());
                        m.append(quoted.as_str());
                        Err(Error::new(ErrorKind::Other, m))
                    },
                }
            } else {
                arg_token(a, d)
            }
        },
    }
}

/// Gives each declared argument its value: the token at its position, else
/// its default, else `Null`.
pub(crate) fn assign_arguments(given: &[String], ctx: &Context) -> (r: Result<
    Vec<(String, Value)>,
    Error,
>)
    ensures
        match assign_args_from(ctx.args@, given@, 0) {
            Ok(a) => r matches Ok(v) && v@ == a,
            Err(e) => r matches Err(err) && err@ == e,
        },
{
    let mut out: Vec<(String, Value)> = Vec::new();
    let mut i: usize = 0;
    while i < ctx.args.len()
        invariant
            i <= ctx.args@.len(),
            assign_args_from(ctx.args@, given@, 0) == prepend(out@, assign_args_from(ctx.args@, given@, i as int)),
        decreases ctx.args@.len() - i,
    {
        let a = &ctx.args[i];
        let v = arg_value(a, given, i);
        match v {
            Err(e) => {
                return Err(e);
            },
            Ok(v) => {
                let ghost before = out@;
                out.push((a.name.clone(), v));
                proof {
                    let rest = assign_args_from(ctx.args@, given@, i + 1);
                    if rest is Ok {
                        assert(before + (seq![(ctx.args@[i as int].name, v)] + rest->Ok_0) =~= out@ + rest->Ok_0);
                    }
                }
            },
        }
        i = i + 1;
    }
    proof {
        assert(out@ + Seq::<(String, Value)>::empty() =~= out@);
    }
    Ok(out)
}

/// The value of flag `f` read from the token `t`.
pub open spec fn flag_token_value(f: Flag, t: String) -> Result<Value, Failure> {
    match f.ty {
        Type::Int => match int_of(t@) {
            Ok(v) => Ok(Value::Int(v as i32)),
            Err(e) => Err((ErrorKind::Other, "Ref: `"@ + f.name@ + "`, "@ + int_error_text(e))),
        },
        _ => Ok(Value::Str(t)),
    }
}

pub open spec fn missing_value_text(name: Seq<char>) -> Seq<char> {
    "Missing value for `"@ + name + "`."@
}

pub open spec fn flag_as_value_text(name: Seq<char>, next: Seq<char>) -> Seq<char> {
    "Missing value for `"@ + name + "`. if you want to pass `"@ + next + "` as the value, try `-- "@
        + next + "`."@
}

pub open spec fn missing_escaped_text(name: Seq<char>) -> Seq<char> {
    "Missing value for `"@ + name + "`"@
}

/// Walks the flag tokens and their values from position `p` on; `seen`
/// holds, at the position of each flag raised so far, its value.
pub open spec fn walk_from(fv: Seq<String>, flags: Seq<Flag>, p: int, seen: Seq<Option<Value>>) -> Result<
    Seq<Option<Value>>,
    Failure,
>
    decreases fv.len() - p,
{
    if p < 0 || p >= fv.len() {
        Ok(seen)
    } else {
        let k = raised(flags, fv[p]@);
        if k < 0 {
            walk_from(fv, flags, p + 1, seen)
        } else if flags[k].ty == Type::Bool {
            walk_from(fv, flags, p + 1, seen.update(k, Some(Value::Bool(true))))
        } else if p + 1 >= fv.len() {
            Err((ErrorKind::MissingValue, missing_value_text(flags[k].name@)))
        } else if raised(flags, fv[p + 1]@) >= 0 {
            Err((ErrorKind::MissingValue, flag_as_value_text(flags[k].name@, fv[p + 1]@)))
        } else if fv[p + 1]@ == escape_marker() {
            if p + 2 >= fv.len() {
                Err((ErrorKind::MissingValue, missing_escaped_text(flags[k].name@)))
            } else {
                match flag_token_value(flags[k], fv[p + 2]) {
                    Err(e) => Err(e),
                    Ok(v) => walk_from(fv, flags, p + 3, seen.update(k, Some(v))),
                }
            }
        } else {
            match flag_token_value(flags[k], fv[p + 1]) {
                Err(e) => Err(e),
                Ok(v) => walk_from(fv, flags, p + 2, seen.update(k, Some(v))),
            }
        }
    }
}

/// The value of flag `f` read from its default `d`.
pub open spec fn flag_default_value(f: Flag, d: String) -> Result<Value, Failure> {
    let unparsable = (ErrorKind::Other, "Ref: `"@ + f.name@ + "`, unparsable default value"@);
    match f.ty {
        Type::Str => Ok(Value::Str(d)),
        Type::Bool => match bool_of(d@) {
            Some(b) => Ok(Value::Bool(b)),
            None => Err(unparsable),
        },
        Type::Int => match int_of(d@) {
            Ok(v) => Ok(Value::Int(v as i32)),
            Err(_) => Err(unparsable),
        },
    }
}

/// The value of the `j`th flag after the walk: the value it was given, else
/// its default, else `Null`.
pub open spec fn flag_slot(flags: Seq<Flag>, seen: Seq<Option<Value>>, j: int) -> Result<Value, Failure> {
    match seen[raised(flags, flags[j].name@)] {
        Some(v) => Ok(v),
        None => match flags[j].default {
            Some(d) => flag_default_value(flags[j], d),
            None => Ok(Value::Null),
        },
    }
}

/// The entries of the flags from position `j` on.
pub open spec fn assign_flags_from(flags: Seq<Flag>, seen: Seq<Option<Value>>, j: int) -> Entries
    decreases flags.len() - j,
{
    if j < 0 || j >= flags.len() {
        Ok(Seq::empty())
    } else {
        match flag_slot(flags, seen, j) {
            Err(e) => Err(e),
            Ok(v) => prepend(seq![(flags[j].name, v)], assign_flags_from(flags, seen, j + 1)),
        }
    }
}

/// No flag seen yet.
pub open spec fn none_seen(n: int) -> Seq<Option<Value>> {
    Seq::new(n as nat, |i: int| None::<Value>)
}

/// The entries of all flags, from the flag tokens and their values.
pub open spec fn options_outcome(fv: Seq<String>, flags: Seq<Flag>) -> Entries {
    match walk_from(fv, flags, 0, none_seen(flags.len() as int)) {
        Err(e) => Err(e),
        Ok(seen) => assign_flags_from(flags, seen, 0),
    }
}

fn flag_token(f: &Flag, t: &String) -> (r: Result<Value, Error>)
    ensures
        match flag_token_value(*f, *t) {
            Ok(v) => r matches Ok(x) && x == v,
            Err(e) => r matches Err(err) && err@ == e,
        },
{
    if matches!(f.ty, Type::Int) {
        let label = join3("`", f.name.as_str(), "`");
        proof {
            assert("Ref: "@ + label@ + ", "@ =~= "Ref: `"@ + f.name@ + "`, "@) by {
                reveal_strlit("Ref: ");
                reveal_strlit(", ");
                reveal_strlit("`");
                reveal_strlit("Ref: `");
                reveal_strlit("`, ");
            }
        }
        int_value(t, label.as_str())
    } else {
        Ok(Value::Str(t.clone()))
    }
}

fn flag_default(f: &Flag, d: &String) -> (r: Result<Value, Error>)
    ensures
        match flag_default_value(*f, *d) {
            Ok(v) => r matches Ok(x) && x == v,
            Err(e) => r matches Err(err) && err@ == e,
        },
{
    let ok = match f.ty {
        Type::Str => Some(Value::Str(d.clone())),
        Type::Bool => match bool_value(d) {
            Ok(b) => Some(Value::Bool(b)),
            Err(_) => None,
        },
        Type::Int => match parse_int(d.as_str()) {
            Ok(v) => Some(Value::Int(v)),
            Err(_) => None,
        },
    };
    match ok {
        Some(v) => Ok(v),
        None => Err(Error::new(ErrorKind::Other, join3("Ref: `", f.name.as_str(), "`, unparsable default value"))),
    }
}

/// Walks the flag tokens and their values, then gives each declared flag
/// its value: the one given, else its default, else `Null`.
pub(crate) fn assign_options(fv: &[String], ctx: &Context) -> (r: Result<
    Vec<(String, Value)>,
    Error,
>)
    ensures
        match options_outcome(fv@, ctx.flags@) {
            Ok(f) => r matches Ok(v) && v@ == f,
            Err(e) => r matches Err(err) && err@ == e,
        },
{
    let n = fv.len();
    let marker = String::from_str("--");
    let mut seen: Vec<Option<Value>> = Vec::new();
    let mut j: usize = 0;
    while j < ctx.flags.len()
        invariant
            j <= ctx.flags@.len(),
            seen@ == none_seen(j as int),
        decreases ctx.flags@.len() - j,
    {
        seen.push(None);
        proof {
            assert(seen@ =~= none_seen(j + 1));
        }
        j = j + 1;
    }
    let ghost start = seen@;
    let mut p: usize = 0;
    while p < n
        invariant
            n == fv@.len(),
            p <= n,
            marker@ == escape_marker(),
            start == none_seen(ctx.flags@.len() as int),
            seen@.len() == ctx.flags@.len(),
            walk_from(fv@, ctx.flags@, 0, start) == walk_from(fv@, ctx.flags@, p as int, seen@),
        decreases n - p,
    {
        match ctx.flag_position(fv[p].as_str()) {
            None => {
                p = p + 1;
            },
            Some(k) => {
                let f = &ctx.flags[k];
                if matches!(f.ty, Type::Bool) {
                    seen.set(k, Some(Value::Bool(true)));
                    p = p + 1;
                } else if p + 1 >= n {
                    return Err(Error::new(ErrorKind::MissingValue, join3("Missing value for `", f.name.as_str(), "`.")));
                } else if ctx.flag_position(fv[p + 1].as_str()).is_some() {
                    let mut m = join3("Missing value for `", f.name.as_str(), "`. if you want to pass `");
                    m.append(fv[p + 1].as_str());
                    m.append("` as the value, try `-- ");
                    m.append(fv[p + 1].as_str());
                    m.append("`.");
                    return Err(Error::new(ErrorKind::MissingValue, m));
                } else if fv[p + 1] == marker {
                    if p + 2 >= n {
                        return Err(Error::new(ErrorKind::MissingValue, join3("Missing value for `", f.name.as_str(), "`")));
                    }
                    let v = flag_token(f, &fv[p + 2]);
                    match v {
                        Err(e) => {
                            return Err(e);
                        },
                        Ok(v) => {
                            seen.set(k, Some(v));
                        },
                    }
                    p = p + 3;
                } else {
                    let v = flag_token(f, &fv[p + 1]);
                    match v {
                        Err(e) => {
                            return Err(e);
                        },
                        Ok(v) => {
                            seen.set(k, Some(v));
                        },
                    }
                    p = p + 2;
                }
            },
        }
    }
    let ghost walked = seen@;
    let mut out: Vec<(String, Value)> = Vec::new();
    let mut j: usize = 0;
    while j < ctx.flags.len()
        invariant
            j <= ctx.flags@.len(),
            walked == seen@,
            walked.len() == ctx.flags@.len(),
            options_outcome(fv@, ctx.flags@) == prepend(out@, assign_flags_from(ctx.flags@, walked, j as int)),
        decreases ctx.flags@.len() - j,
    {
        let f = &ctx.flags[j];
        let k = match ctx.flag_position(f.name.as_str()) {
            Some(k) => k,
            None => {
                proof {
                    assert(flag_names(ctx.flags@)[j as int] == f.name@);
                }
                j
            },
        };
        let v = match &seen[k] {
            Some(v) => Ok(v.clone()),
            None => match &f.default {
                Some(d) => flag_default(f, d),
                None => Ok(Value::Null),
            },
        };
        match v {
            Err(e) => {
                return Err(e);
            },
            Ok(v) => {
                let ghost before = out@;
                out.push((f.name.clone(), v));
                proof {
                    let rest = assign_flags_from(ctx.flags@, walked, j + 1);
                    if rest is Ok {
                        assert(before + (seq![(ctx.flags@[j as int].name, v)] + rest->Ok_0) =~= out@ + rest->Ok_0);
                    }
                }
            },
        }
        j = j + 1;
    }
    proof {
        assert(out@ + Seq::<(String, Value)>::empty() =~= out@);
    }
    Ok(out)
}

} // verus!
