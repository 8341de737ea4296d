//! What holds of every parse.
use vstd::prelude::*;

use crate::builder::arg::Arg;
use crate::builder::context::arg_names;
use crate::builder::context::escape_marker;
use crate::builder::context::first_index;
use crate::builder::context::flag_names;
use crate::builder::context::is_first_index;
use crate::builder::context::lemma_first_index;
use crate::builder::context::lemma_no_index;
use crate::builder::context::names_unique;
use crate::builder::flag::Flag;
use crate::errors::Error;
use crate::errors::ErrorKind;
use crate::parser::builder::entry_names;
use crate::parser::funcs::arg_default_value;
use crate::parser::funcs::arg_slot;
use crate::parser::funcs::missing_arg_from;
use crate::parser::funcs::missing_flag_from;
use crate::parser::funcs::missing_value_text;
use crate::parser::funcs::options_outcome;
use crate::parser::funcs::raised;
use crate::parser::funcs::assign_args_from;
use crate::parser::funcs::assign_flags_from;
use crate::parser::funcs::classify_from;
use crate::parser::funcs::flag_slot;
use crate::parser::funcs::flag_token_value;
use crate::parser::funcs::help_token;
use crate::parser::funcs::holds_text;
use crate::parser::funcs::none_seen;
use crate::parser::funcs::walk_from;
use crate::parser::funcs::Failure;
use crate::parser::outcome_of;
use crate::parser::parse_outcome;
use crate::parser::ParsedArguments;
use crate::parser::Value;
use crate::Context;
use crate::Type;

verus! {

proof fn lemma_args_entries(args: Seq<Arg>, given: Seq<String>, i: int)
    requires
        0 <= i <= args.len(),
        assign_args_from(args, given, i) is Ok,
    ensures
        ({
            let a = assign_args_from(args, given, i)->Ok_0;
            &&& a.len() == args.len() - i
            &&& forall|m: int| 0 <= m < a.len() ==> (#[trigger] a[m]).0 == args[i + m].name && arg_slot(
                args[i + m],
                given,
                i + m,
            ) == Ok::<Value, Failure>(a[m].1)
        }),
    decreases args.len() - i,
{
    if i < args.len() {
        lemma_args_entries(args, given, i + 1);
        let a = assign_args_from(args, given, i)->Ok_0;
        let rest = assign_args_from(args, given, i + 1)->Ok_0;
        assert forall|m: int| 0 <= m < a.len() implies (#[trigger] a[m]).0 == args[i + m].name
            && arg_slot(args[i + m], given, i + m) == Ok::<Value, Failure>(a[m].1) by {
            if m > 0 {
                assert(a[m] == rest[m - 1]);
            }
        }
    }
}

proof fn lemma_flags_entries(flags: Seq<Flag>, seen: Seq<Option<Value>>, j: int)
    requires
        0 <= j <= flags.len(),
        assign_flags_from(flags, seen, j) is Ok,
    ensures
        ({
            let f = assign_flags_from(flags, seen, j)->Ok_0;
            &&& f.len() == flags.len() - j
            &&& forall|m: int| 0 <= m < f.len() ==> (#[trigger] f[m]).0 == flags[j + m].name && flag_slot(
                flags,
                seen,
                j + m,
            ) == Ok::<Value, Failure>(f[m].1)
        }),
    decreases flags.len() - j,
{
    if j < flags.len() {
        lemma_flags_entries(flags, seen, j + 1);
        let f = assign_flags_from(flags, seen, j)->Ok_0;
        let rest = assign_flags_from(flags, seen, j + 1)->Ok_0;
        assert forall|m: int| 0 <= m < f.len() implies (#[trigger] f[m]).0 == flags[j + m].name
            && flag_slot(flags, seen, j + m) == Ok::<Value, Failure>(f[m].1) by {
            if m > 0 {
                assert(f[m] == rest[m - 1]);
            }
        }
    }
}

/// A successful parse has one entry for each declared argument and one for
/// each declared flag, in declaration order and under the declared names;
/// in a well-formed declaration these names are distinct.
pub proof fn lemma_parse_covers_declaration(tokens: Seq<String>, ctx: Context)
    requires
        parse_outcome(tokens, ctx) is Ok,
    ensures
        ({
            let (a, f) = parse_outcome(tokens, ctx)->Ok_0;
            &&& a.len() == ctx.args@.len()
            &&& f.len() == ctx.flags@.len()
            &&& forall|i: int| 0 <= i < a.len() ==> (#[trigger] a[i]).0 == ctx.args@[i].name
            &&& forall|j: int| 0 <= j < f.len() ==> (#[trigger] f[j]).0 == ctx.flags@[j].name
            &&& entry_names(a) == arg_names(ctx.args@)
            &&& entry_names(f) == flag_names(ctx.flags@)
            &&& ctx.wf() ==> names_unique(entry_names(a)) && names_unique(entry_names(f))
        }),
{
    let (given, fv) = classify_from(tokens, ctx.flags@, 0);
    let seen = walk_from(fv, ctx.flags@, 0, none_seen(ctx.flags@.len() as int))->Ok_0;
    lemma_args_entries(ctx.args@, given, 0);
    lemma_flags_entries(ctx.flags@, seen, 0);
    let (a, f) = parse_outcome(tokens, ctx)->Ok_0;
    assert(entry_names(a) =~= arg_names(ctx.args@));
    assert(entry_names(f) =~= flag_names(ctx.flags@));
}

/// Where `--help` is among the tokens, the parse asks for help, whatever
/// the other tokens are.
pub proof fn lemma_help_wins(tokens: Seq<String>, ctx: Context)
    requires
        holds_text(tokens, help_token()),
    ensures
        parse_outcome(tokens, ctx) == Err::<(Seq<(String, Value)>, Seq<(String, Value)>), Failure>(
            (ErrorKind::WantsHelp, Seq::empty()),
        ),
{
}

/// Parsing depends on the tokens and the declaration alone: two parses of
/// the same input give equal outcomes.
pub proof fn lemma_parse_deterministic(
    tokens: Seq<String>,
    ctx: Context,
    first: Result<ParsedArguments, Error>,
    second: Result<ParsedArguments, Error>,
)
    requires
        outcome_of(first) == parse_outcome(tokens, ctx),
        outcome_of(second) == parse_outcome(tokens, ctx),
    ensures
        outcome_of(first) == outcome_of(second),
{
}

/// Where `t` occurs in `names`, it has a first position.
proof fn lemma_first_exists(names: Seq<Seq<char>>, t: Seq<char>, i: int)
    requires
        0 <= i < names.len(),
        names[i] == t,
    ensures
        0 <= first_index(names, t) <= i,
        is_first_index(names, t, first_index(names, t)),
    decreases i,
{
    if exists|j: int| 0 <= j < i && names[j] == t {
        let j = choose|j: int| 0 <= j < i && names[j] == t;
        lemma_first_exists(names, t, j);
    } else {
        lemma_first_index(names, t, i);
    }
}

/// An argument left without a token takes its declared default, read by its
/// type; it is never `Null`.
pub proof fn lemma_default_fills_omitted(tokens: Seq<String>, ctx: Context, i: int)
    requires
        parse_outcome(tokens, ctx) is Ok,
        0 <= i < ctx.args@.len(),
        classify_from(tokens, ctx.flags@, 0).0.len() <= i,
        ctx.args@[i].default is Some,
    ensures
        ({
            let a = parse_outcome(tokens, ctx)->Ok_0.0;
            &&& arg_default_value(ctx.args@[i], ctx.args@[i].default->Some_0) == Ok::<Value, Failure>(a[i].1)
            &&& a[i].1 != Value::Null
        }),
{
    let given = classify_from(tokens, ctx.flags@, 0).0;
    lemma_args_entries(ctx.args@, given, 0);
    let a = parse_outcome(tokens, ctx)->Ok_0.0;
    assert(a[0 + i] == a[i]);
}

/// An optional argument with no default, left without a token, is `Null`:
/// it causes no error.
pub proof fn lemma_omitted_argument_is_null(tokens: Seq<String>, ctx: Context, i: int)
    requires
        0 <= i < ctx.args@.len(),
        classify_from(tokens, ctx.flags@, 0).0.len() <= i,
        !ctx.args@[i].is_mandatory,
        ctx.args@[i].default is None,
    ensures
        arg_slot(ctx.args@[i], classify_from(tokens, ctx.flags@, 0).0, i) == Ok::<Value, Failure>(Value::Null),
        parse_outcome(tokens, ctx) is Ok ==> parse_outcome(tokens, ctx)->Ok_0.0[i].1 == Value::Null,
{
    let given = classify_from(tokens, ctx.flags@, 0).0;
    if parse_outcome(tokens, ctx) is Ok {
        lemma_args_entries(ctx.args@, given, 0);
        let a = parse_outcome(tokens, ctx)->Ok_0.0;
        assert(a[0 + i] == a[i]);
    }
}

/// Every flag token or value comes from the tokens at `p` or after.
proof fn lemma_classified_from_tokens(tokens: Seq<String>, flags: Seq<Flag>, p: int)
    requires
        0 <= p,
    ensures
        forall|x: int| 0 <= x < classify_from(tokens, flags, p).1.len() ==> exists|i: int|
            p <= i < tokens.len() && tokens[i] == #[trigger] classify_from(tokens, flags, p).1[x],
    decreases tokens.len() - p,
{
    if p < tokens.len() {
        lemma_classified_from_tokens(tokens, flags, p + 1);
        if p + 2 <= tokens.len() {
            lemma_classified_from_tokens(tokens, flags, p + 2);
        }
        if p + 3 <= tokens.len() {
            lemma_classified_from_tokens(tokens, flags, p + 3);
        }
        let fv = classify_from(tokens, flags, p).1;
        assert forall|x: int| 0 <= x < fv.len() implies exists|i: int|
            p <= i < tokens.len() && tokens[i] == #[trigger] fv[x] by {
            let k = raised(flags, tokens[p]@);
            if k >= 0 {
                if flags[k].ty == Type::Bool {
                    if x > 0 {
                        assert(fv[x] == classify_from(tokens, flags, p + 1).1[x - 1]);
                    } else {
                        assert(tokens[p] == fv[x]);
                    }
                } else if p + 1 >= tokens.len() {
                    assert(tokens[p] == fv[x]);
                } else if tokens[p + 1]@ == escape_marker() && p + 2 < tokens.len() {
                    if x > 2 {
                        assert(fv[x] == classify_from(tokens, flags, p + 3).1[x - 3]);
                    } else {
                        assert(tokens[p + x] == fv[x]);
                    }
                } else {
                    if x > 1 {
                        assert(fv[x] == classify_from(tokens, flags, p + 2).1[x - 2]);
                    } else {
                        assert(tokens[p + x] == fv[x]);
                    }
                }
            } else {
                assert(fv[x] == classify_from(tokens, flags, p + 1).1[x]);
            }
        }
    }
}

/// A walk leaves untouched the slot of a flag that no token from `p` on
/// names.
proof fn lemma_walk_keeps(fv: Seq<String>, flags: Seq<Flag>, p: int, seen: Seq<Option<Value>>, k: int)
    requires
        0 <= p,
        0 <= k < flags.len(),
        seen.len() == flags.len(),
        walk_from(fv, flags, p, seen) is Ok,
        forall|q: int| p <= q < fv.len() ==> (#[trigger] fv[q])@ != flags[k].name@,
    ensures
        walk_from(fv, flags, p, seen)->Ok_0[k] == seen[k],
    decreases fv.len() - p,
{
    if p < fv.len() {
        let kp = raised(flags, fv[p]@);
        if kp >= 0 {
            assert(is_first_index(flag_names(flags), fv[p]@, kp));
            assert(flag_names(flags)[kp] == fv[p]@);
            assert(kp != k);
            if flags[kp].ty == Type::Bool {
                lemma_walk_keeps(fv, flags, p + 1, seen.update(kp, Some(Value::Bool(true))), k);
            } else if p + 1 < fv.len() && raised(flags, fv[p + 1]@) < 0 {
                if fv[p + 1]@ == escape_marker() {
                    if p + 2 < fv.len() {
                        let v = flag_token_value(flags[kp], fv[p + 2]);
                        if v is Ok {
                            lemma_walk_keeps(fv, flags, p + 3, seen.update(kp, Some(v->Ok_0)), k);
                        }
                    }
                } else {
                    let v = flag_token_value(flags[kp], fv[p + 1]);
                    if v is Ok {
                        lemma_walk_keeps(fv, flags, p + 2, seen.update(kp, Some(v->Ok_0)), k);
                    }
                }
            }
        } else {
            lemma_walk_keeps(fv, flags, p + 1, seen, k);
        }
    }
}

/// An optional flag with no default that no token names is `Null`.
pub proof fn lemma_unraised_flag_is_null(tokens: Seq<String>, ctx: Context, j: int)
    requires
        parse_outcome(tokens, ctx) is Ok,
        0 <= j < ctx.flags@.len(),
        ctx.flags@[j].default is None,
        !holds_text(tokens, ctx.flags@[j].name@),
    ensures
        parse_outcome(tokens, ctx)->Ok_0.1[j].1 == Value::Null,
{
    let flags = ctx.flags@;
    let fv = classify_from(tokens, flags, 0).1;
    let start = none_seen(flags.len() as int);
    let seen = walk_from(fv, flags, 0, start)->Ok_0;
    lemma_first_exists(flag_names(flags), flags[j].name@, j);
    let k = raised(flags, flags[j].name@);
    assert(flag_names(flags)[k] == flags[j].name@);
    lemma_classified_from_tokens(tokens, flags, 0);
    assert forall|q: int| 0 <= q < fv.len() implies (#[trigger] fv[q])@ != flags[k].name@ by {
        let i = choose|i: int| 0 <= i < tokens.len() && tokens[i] == fv[q];
        assert(tokens[i]@ != flags[j].name@);
    }
    lemma_walk_keeps(fv, flags, 0, start, k);
    lemma_flags_entries(flags, seen, 0);
    let f = parse_outcome(tokens, ctx)->Ok_0.1;
    assert(f[0 + j] == f[j]);
}

/// A `Str` flag followed by the escape marker takes the token after the
/// marker as its value, verbatim, even where that token names a flag.
pub proof fn lemma_escaped_value(name: String, marker: String, value: String, ctx: Context)
    requires
        raised(ctx.flags@, name@) >= 0,
        ctx.flags@[raised(ctx.flags@, name@)].ty == Type::Str,
        marker@ == escape_marker(),
        !flag_names(ctx.flags@).contains(escape_marker()),
        parse_outcome(seq![name, marker, value], ctx) is Ok,
    ensures
        parse_outcome(seq![name, marker, value], ctx)->Ok_0.1[raised(ctx.flags@, name@)].1 == Value::Str(
            value,
        ),
{
    let tokens = seq![name, marker, value];
    let flags = ctx.flags@;
    let k = raised(flags, name@);
    assert(is_first_index(flag_names(flags), name@, k));
    assert(flag_names(flags)[k] == name@);
    lemma_no_index(flag_names(flags), marker@);
    let fv = classify_from(tokens, flags, 0).1;
    assert(classify_from(tokens, flags, 3).1 =~= Seq::<String>::empty());
    assert(fv =~= tokens);
    let start = none_seen(flags.len() as int);
    let seen = start.update(k, Some(Value::Str(value)));
    assert(walk_from(fv, flags, 3, seen) == Ok::<Seq<Option<Value>>, Failure>(seen));
    assert(walk_from(fv, flags, 0, start) == Ok::<Seq<Option<Value>>, Failure>(seen));
    lemma_flags_entries(flags, seen, 0);
    let f = parse_outcome(tokens, ctx)->Ok_0.1;
    assert(f[0 + k] == f[k]);
}

proof fn lemma_none_mandatory(args: Seq<Arg>, i: int)
    requires
        0 <= i,
        forall|m: int| 0 <= m < args.len() ==> !(#[trigger] args[m]).is_mandatory,
    ensures
        missing_arg_from(args, i) is None,
    decreases args.len() - i,
{
    if i < args.len() {
        lemma_none_mandatory(args, i + 1);
    }
}

proof fn lemma_mandatory_flags_named(tokens: Seq<String>, flags: Seq<Flag>, j: int)
    requires
        0 <= j,
        forall|m: int|
            0 <= m < flags.len() && (#[trigger] flags[m]).is_mandatory ==> holds_text(tokens, flags[m].name@),
    ensures
        missing_flag_from(tokens, flags, j) is None,
    decreases flags.len() - j,
{
    if j < flags.len() {
        lemma_mandatory_flags_named(tokens, flags, j + 1);
    }
}

/// A flag that takes a value, given as the only token, is a missing value
/// and not `Null`: where no argument is mandatory and the arguments'
/// defaults all read, and no other flag is mandatory.
pub proof fn lemma_flag_without_value(flag: String, ctx: Context)
    requires
        raised(ctx.flags@, flag@) >= 0,
        ctx.flags@[raised(ctx.flags@, flag@)].ty != Type::Bool,
        flag@ != help_token(),
        forall|i: int| 0 <= i < ctx.args@.len() ==> !(#[trigger] ctx.args@[i]).is_mandatory,
        assign_args_from(ctx.args@, Seq::empty(), 0) is Ok,
        forall|j: int|
            0 <= j < ctx.flags@.len() && (#[trigger] ctx.flags@[j]).is_mandatory ==> ctx.flags@[j].name@
                == flag@,
    ensures
        parse_outcome(seq![flag], ctx) == Err::<(Seq<(String, Value)>, Seq<(String, Value)>), Failure>(
            (
                ErrorKind::MissingValue,
                missing_value_text(ctx.flags@[raised(ctx.flags@, flag@)].name@),
            ),
        ),
{
    let tokens = seq![flag];
    let flags = ctx.flags@;
    assert(!holds_text(tokens, help_token())) by {
        if holds_text(tokens, help_token()) {
            let i = choose|i: int| 0 <= i < tokens.len() && tokens[i]@ == help_token();
            assert(i == 0);
        }
    }
    let (given, fv) = classify_from(tokens, flags, 0);
    assert(given =~= Seq::<String>::empty());
    assert(fv =~= tokens);
    lemma_none_mandatory(ctx.args@, 0);
    assert forall|m: int|
        0 <= m < flags.len() && (#[trigger] flags[m]).is_mandatory implies holds_text(
        tokens,
        flags[m].name@,
    ) by {
        assert(tokens[0]@ == flags[m].name@);
    }
    lemma_mandatory_flags_named(tokens, flags, 0);
    assert(options_outcome(fv, flags) is Err);
}

/// Classification puts every token either among the positional tokens or
/// among the flag tokens and their values.
pub proof fn lemma_classify_partitions(tokens: Seq<String>, flags: Seq<Flag>, p: int)
    requires
        0 <= p <= tokens.len(),
    ensures
        classify_from(tokens, flags, p).0.len() + classify_from(tokens, flags, p).1.len() == tokens.len() - p,
    decreases tokens.len() - p,
{
    if p < tokens.len() {
        lemma_classify_partitions(tokens, flags, p + 1);
        if p + 2 <= tokens.len() {
            lemma_classify_partitions(tokens, flags, p + 2);
        }
        if p + 3 <= tokens.len() {
            lemma_classify_partitions(tokens, flags, p + 3);
        }
    }
}

} // verus!
