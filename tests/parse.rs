use parsin::errors::ErrorKind;
use parsin::parse;
use parsin::parser::ParsedArguments;
use parsin::parser::Value;
use parsin::Arg;
use parsin::Context;
use parsin::Flag;
use parsin::Type;

fn toks(v: &[&str]) -> Vec<String> {
    v.iter().map(|s| s.to_string()).collect()
}

fn context(
    args: &[(&str, Type, &str, bool, Option<&str>)],
    flags: &[(&str, Type, &str, bool, Option<&str>)],
) -> Context {
    let mut ctx = Context::new();
    for a in args {
        ctx.add_arg(Arg::from(a)).unwrap();
    }
    for f in flags {
        ctx.add_flag(Flag::from(f)).unwrap();
    }
    ctx
}

fn is_str(v: Option<&Value>, s: &str) -> bool {
    matches!(v, Some(Value::Str(x)) if x == s)
}

fn is_int(v: Option<&Value>, n: i32) -> bool {
    matches!(v, Some(Value::Int(x)) if *x == n)
}

fn is_bool(v: Option<&Value>, b: bool) -> bool {
    matches!(v, Some(Value::Bool(x)) if *x == b)
}

fn is_null(v: Option<&Value>) -> bool {
    matches!(v, Some(Value::Null))
}

fn fails(r: Result<ParsedArguments, parsin::errors::Error>, kind: ErrorKind, diagnosis: &str) {
    match r {
        Ok(p) => panic!("expected an error, got {:?}", p),
        Err(e) => {
            assert_eq!(e.kind(), kind);
            assert_eq!(e.diagnosis(), diagnosis);
        }
    }
}

#[test]
fn name_and_shout_default_false() {
    let ctx = context(
        &[("name", Type::Str, "your name", true, None)],
        &[("--shout", Type::Bool, "shout", false, Some("false"))],
    );
    let p = parse(&toks(&["alice"]), &ctx).unwrap();
    assert_eq!(p.arguments.len(), 1);
    assert_eq!(p.flags.len(), 1);
    assert!(is_str(p.argument("name"), "alice"));
    assert!(is_bool(p.flag("--shout"), false));
}

#[test]
fn shout_raised_is_true() {
    let ctx = context(
        &[("name", Type::Str, "your name", true, None)],
        &[("--shout", Type::Bool, "shout", false, Some("false"))],
    );
    let p = parse(&toks(&["--shout", "alice"]), &ctx).unwrap();
    assert!(is_str(p.argument("name"), "alice"));
    assert!(is_bool(p.flag("--shout"), true));
}

#[test]
fn age_not_a_number() {
    let ctx = context(&[("age", Type::Int, "your age", true, None)], &[]);
    fails(
        parse(&toks(&["notanumber"]), &ctx),
        ErrorKind::Other,
        "Ref: `<AGE>`, invalid digit found in string",
    );
}

#[test]
fn escaped_flag_name_is_a_value() {
    let ctx = context(
        &[],
        &[
            ("--name", Type::Str, "a name", false, None),
            ("--other-flag", Type::Bool, "other", false, None),
        ],
    );
    let p = parse(&toks(&["--name", "--", "--other-flag"]), &ctx).unwrap();
    assert!(is_str(p.flag("--name"), "--other-flag"));
    assert!(is_null(p.flag("--other-flag")));
}

#[test]
fn escaped_int_value() {
    let ctx = context(&[], &[("--count", Type::Int, "count", false, None)]);
    let p = parse(&toks(&["--count", "--", "-7"]), &ctx).unwrap();
    assert!(is_int(p.flag("--count"), -7));
}

#[test]
fn count_without_value() {
    let ctx = context(&[], &[("--count", Type::Int, "count", false, None)]);
    fails(parse(&toks(&["--count"]), &ctx), ErrorKind::MissingValue, "Missing value for `--count`.");
}

#[test]
fn escape_marker_without_value() {
    let ctx = context(&[], &[("--count", Type::Int, "count", false, None)]);
    fails(parse(&toks(&["--count", "--"]), &ctx), ErrorKind::MissingValue, "Missing value for `--count`");
}

#[test]
fn flag_name_as_value_suggests_escape() {
    let ctx = context(
        &[],
        &[
            ("--name", Type::Str, "a name", false, None),
            ("--loud", Type::Bool, "loud", false, None),
        ],
    );
    fails(
        parse(&toks(&["--name", "--loud"]), &ctx),
        ErrorKind::MissingValue,
        "Missing value for `--name`. if you want to pass `--loud` as the value, try `-- --loud`.",
    );
}

#[test]
fn help_anywhere_wins() {
    let ctx = context(
        &[("age", Type::Int, "your age", true, None)],
        &[("--must", Type::Str, "needed", true, None)],
    );
    for tokens in [
        vec!["--help"],
        vec!["notanumber", "--help"],
        vec!["--help", "notanumber"],
        vec!["--must", "--help"],
    ] {
        let r = parse(&toks(&tokens), &ctx);
        fails(r, ErrorKind::WantsHelp, "");
    }
}

#[test]
fn every_declared_name_has_one_entry() {
    let ctx = context(
        &[
            ("first", Type::Str, "", true, None),
            ("second", Type::Int, "", false, Some("3")),
            ("third", Type::Bool, "", false, None),
        ],
        &[("--a", Type::Bool, "", false, None), ("--b", Type::Str, "", false, Some("x"))],
    );
    let p = parse(&toks(&["one", "--a"]), &ctx).unwrap();
    let names: Vec<&str> = p.arguments.iter().map(|e| e.0.as_str()).collect();
    assert_eq!(names, vec!["first", "second", "third"]);
    let names: Vec<&str> = p.flags.iter().map(|e| e.0.as_str()).collect();
    assert_eq!(names, vec!["--a", "--b"]);
    assert!(is_str(p.argument("first"), "one"));
    assert!(is_int(p.argument("second"), 3));
    assert!(is_null(p.argument("third")));
    assert!(is_bool(p.flag("--a"), true));
    assert!(is_str(p.flag("--b"), "x"));
}

#[test]
fn default_fills_an_omitted_argument() {
    let ctx = context(
        &[
            ("name", Type::Str, "", true, None),
            ("times", Type::Int, "", false, Some("42")),
            ("loud", Type::Bool, "", false, Some("  TRUE ")),
            ("word", Type::Str, "", false, Some("hello")),
        ],
        &[],
    );
    let p = parse(&toks(&["bob"]), &ctx).unwrap();
    assert!(is_str(p.argument("name"), "bob"));
    assert!(is_int(p.argument("times"), 42));
    assert!(is_bool(p.argument("loud"), true));
    assert!(is_str(p.argument("word"), "hello"));
}

#[test]
fn omitted_optional_without_default_is_null() {
    let ctx = context(
        &[("name", Type::Str, "", false, None), ("n", Type::Int, "", false, None)],
        &[("--x", Type::Int, "", false, None), ("--y", Type::Bool, "", false, None)],
    );
    let p = parse(&toks(&[]), &ctx).unwrap();
    assert!(is_null(p.argument("name")));
    assert!(is_null(p.argument("n")));
    assert!(is_null(p.flag("--x")));
    assert!(is_null(p.flag("--y")));
}

#[test]
fn parsing_twice_gives_the_same() {
    let ctx = context(
        &[("name", Type::Str, "", true, None), ("n", Type::Int, "", false, Some("5"))],
        &[("--x", Type::Int, "", false, None), ("--y", Type::Bool, "", false, None)],
    );
    let tokens = toks(&["--x", "9", "a", "--y"]);
    let first = parse(&tokens, &ctx).unwrap();
    let second = parse(&tokens, &ctx).unwrap();
    assert_eq!(format!("{:?}", first), format!("{:?}", second));
    assert!(is_int(first.flag("--x"), 9));
    let bad = toks(&["--x"]);
    let e1 = parse(&bad, &ctx).unwrap_err();
    let e2 = parse(&bad, &ctx).unwrap_err();
    assert_eq!(e1.kind(), e2.kind());
    assert_eq!(e1.diagnosis(), e2.diagnosis());
}

#[test]
fn missing_mandatory_argument() {
    let ctx = context(
        &[("src", Type::Str, "", true, None), ("dest", Type::Str, "", true, None)],
        &[],
    );
    fails(parse(&toks(&["a"]), &ctx), ErrorKind::MissingArgument, "Missing argument `<DEST>`");
}

#[test]
fn missing_mandatory_flag() {
    let ctx = context(&[], &[("--out", Type::Str, "", true, None)]);
    fails(parse(&toks(&[]), &ctx), ErrorKind::MissingFlag, "Missing flag `<--OUT>`");
}

#[test]
fn mandatory_flag_named_anywhere_counts() {
    let ctx = context(
        &[],
        &[("--name", Type::Str, "", false, None), ("--out", Type::Bool, "", true, None)],
    );
    let p = parse(&toks(&["--name", "--", "--out"]), &ctx).unwrap();
    assert!(is_str(p.flag("--name"), "--out"));
    assert!(is_null(p.flag("--out")));
}

#[test]
fn mandatory_argument_checked_before_flags() {
    let ctx = context(
        &[("src", Type::Str, "", true, None)],
        &[("--out", Type::Str, "", true, None)],
    );
    fails(parse(&toks(&[]), &ctx), ErrorKind::MissingArgument, "Missing argument `<SRC>`");
}

#[test]
fn int_flag_value_overflows() {
    let ctx = context(&[], &[("--n", Type::Int, "", false, None)]);
    fails(
        parse(&toks(&["--n", "2147483648"]), &ctx),
        ErrorKind::Other,
        "Ref: `--n`, number too large to fit in target type",
    );
    fails(
        parse(&toks(&["--n", "-2147483649"]), &ctx),
        ErrorKind::Other,
        "Ref: `--n`, number too small to fit in target type",
    );
    fails(
        parse(&toks(&["--n", ""]), &ctx),
        ErrorKind::Other,
        "Ref: `--n`, cannot parse integer from empty string",
    );
    let p = parse(&toks(&["--n", "-2147483648"]), &ctx).unwrap();
    assert!(is_int(p.flag("--n"), i32::MIN));
}

#[test]
fn bad_argument_default() {
    let ctx = context(&[("on", Type::Bool, "", false, Some(" Maybe "))], &[]);
    fails(parse(&toks(&[]), &ctx), ErrorKind::Other, "Unparsable default value \"maybe\"");
    let ctx = context(&[("n", Type::Int, "", false, Some("x1"))], &[]);
    fails(parse(&toks(&[]), &ctx), ErrorKind::Other, "Ref: `<N>`, invalid digit found in string");
}

#[test]
fn bad_flag_default() {
    let ctx = context(&[], &[("--on", Type::Bool, "", false, Some("yes"))]);
    fails(parse(&toks(&[]), &ctx), ErrorKind::Other, "Ref: `--on`, unparsable default value");
    let ctx = context(&[], &[("--n", Type::Int, "", false, Some("ten"))]);
    fails(parse(&toks(&[]), &ctx), ErrorKind::Other, "Ref: `--n`, unparsable default value");
}

#[test]
fn flag_defaults_read_by_type() {
    let ctx = context(
        &[],
        &[
            ("--on", Type::Bool, "", false, Some("True")),
            ("--off", Type::Bool, "", false, Some("FALSE")),
            ("--n", Type::Int, "", false, Some("+12")),
            ("--wide", Type::Bool, "", false, Some("\u{3000}TRUE\t\u{2003}")),
        ],
    );
    let p = parse(&toks(&[]), &ctx).unwrap();
    assert!(is_bool(p.flag("--on"), true));
    assert!(is_bool(p.flag("--off"), false));
    assert!(is_int(p.flag("--n"), 12));
    assert!(is_bool(p.flag("--wide"), true));
}

#[test]
fn bool_argument_is_true_whatever_the_token() {
    let ctx = context(&[("on", Type::Bool, "", true, None)], &[]);
    let p = parse(&toks(&["no"]), &ctx).unwrap();
    assert!(is_bool(p.argument("on"), true));
}

#[test]
fn positional_tokens_keep_their_order() {
    let ctx = context(
        &[("x", Type::Str, "", true, None), ("y", Type::Str, "", true, None)],
        &[("--name", Type::Str, "", false, None)],
    );
    let p = parse(&toks(&["a", "b", "--name", "a"]), &ctx).unwrap();
    assert!(is_str(p.argument("x"), "a"));
    assert!(is_str(p.argument("y"), "b"));
    assert!(is_str(p.flag("--name"), "a"));
}

#[test]
fn extra_positional_tokens_are_ignored() {
    let ctx = context(&[("x", Type::Int, "", true, None)], &[]);
    let p = parse(&toks(&["1", "2", "3"]), &ctx).unwrap();
    assert_eq!(p.arguments.len(), 1);
    assert!(is_int(p.argument("x"), 1));
}

#[test]
fn flag_given_twice_keeps_the_last() {
    let ctx = context(&[], &[("--n", Type::Int, "", false, None)]);
    let p = parse(&toks(&["--n", "1", "--n", "2"]), &ctx).unwrap();
    assert_eq!(p.flags.len(), 1);
    assert!(is_int(p.flag("--n"), 2));
}

#[test]
fn lookup_of_an_undeclared_name() {
    let p = ParsedArguments::new();
    assert!(p.argument("x").is_none());
    assert!(p.flag("--x").is_none());
    let d = ParsedArguments::default();
    assert!(d.arguments.is_empty() && d.flags.is_empty());
}
