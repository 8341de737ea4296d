use parsin::errors::Error;
use parsin::errors::ErrorKind;
use parsin::help::error_message;
use parsin::help::usage;
use parsin::parser::Value;
use parsin::Arg;
use parsin::Context;
use parsin::Flag;
use parsin::Type;

#[test]
fn arg_getters() {
    let a = Arg::new(
        String::from("name"),
        Type::Str,
        String::from("This is the description"),
        false,
        Some(String::from("default value")),
    );
    assert_eq!(a.get_name(), "name");
    assert_eq!(a.get_type(), Type::Str);
    assert_eq!(a.get_description(), "This is the description");
    assert!(!a.is_mandatory());
    assert_eq!(a.get_default(), Some(String::from("default value")));
    let b = a.clone();
    assert_eq!(b.get_name(), "name");
}

#[test]
fn arg_and_flag_from_tuples() {
    let a = Arg::from(("age", Type::Int, "Your age", true, None));
    assert_eq!(a.get_name(), "age");
    assert_eq!(a.get_type(), Type::Int);
    assert!(a.is_mandatory());
    assert_eq!(a.get_default(), None);
    let f = Flag::from(("--flag", Type::Bool, "a flag", false, Some("false")));
    assert_eq!(f.name, "--flag");
    assert_eq!(f.default, Some(String::from("false")));
    let g = Flag::from((String::from("--g"), Type::Str, String::from("g"), true, None));
    assert_eq!(g.name, "--g");
    assert!(g.is_mandatory);
    let h = Flag::from(&("--h", Type::Int, "h", false, Some(String::from("3"))));
    assert_eq!(h.default, Some(String::from("3")));
    let n = Flag::new(String::from("--n"), Type::Int, String::from("n"), false, None);
    assert_eq!(n.name, "--n");
    assert_eq!(n.ty, Type::Int);
}

#[test]
fn context_from_tuples() {
    let ctx = Context::from((
        &[("Argument", Type::Str, "test argument desc", true, Some("string default value"))],
        &[("--flag", Type::Bool, "test flag desc", false, None)],
    ));
    assert_eq!(ctx.args().len(), 1);
    assert_eq!(ctx.flags().len(), 1);
    assert_eq!(ctx.args()[0].get_default(), Some(String::from("string default value")));
    assert!(ctx.contains_flag("--flag"));
    let ctx2 = Context::from((
        &[Arg::from(("arg1", Type::Str, "argument one", true, None))],
        &[Flag::from(("flag1", Type::Int, "flag with int value", false, Some("19")))],
    ));
    assert!(ctx2.contains_arg("arg1"));
    assert_eq!(ctx2.get_flag("flag1").unwrap().default, Some(String::from("19")));
}

#[test]
fn add_and_remove_arguments() {
    let mut ctx = Context::default();
    ctx.add_arg(Arg::from(("a", Type::Str, "", true, None))).unwrap();
    ctx.add_arg(Arg::from(("b", Type::Int, "", false, None))).unwrap();
    assert!(ctx.contains_arg("a"));
    assert!(!ctx.contains_arg("c"));
    assert_eq!(ctx.get_arg("b").unwrap().get_type(), Type::Int);
    assert!(ctx.get_arg("c").is_none());
    let e = ctx.add_arg(Arg::from(("a", Type::Bool, "", false, None))).unwrap_err();
    assert_eq!(e.kind(), ErrorKind::DuplicateArgument);
    assert_eq!(e.diagnosis(), "Found a duplicate argument for `a`");
    let e = ctx.add_arg(Arg::from(("--", Type::Bool, "", false, None))).unwrap_err();
    assert_eq!(e.kind(), ErrorKind::Other);
    assert_eq!(e.diagnosis(), "`--` is an invalid name for an Arg");
    let removed = ctx.remove_arg("a").unwrap();
    assert_eq!(removed.get_name(), "a");
    assert_eq!(ctx.args().len(), 1);
    let e = ctx.remove_arg("a").unwrap_err();
    assert_eq!(e.kind(), ErrorKind::MissingArgument);
    assert_eq!(e.diagnosis(), "Argument `a` never existed within the context");
}

#[test]
fn add_and_remove_flags() {
    let mut ctx = Context::new();
    ctx.add_flag(Flag::from(("--a", Type::Bool, "", false, None::<&str>))).unwrap();
    assert!(ctx.contains_flag("--a"));
    let e = ctx.add_flag(Flag::from(("--a", Type::Int, "", false, None::<&str>))).unwrap_err();
    assert_eq!(e.kind(), ErrorKind::DuplicateFlag);
    assert_eq!(e.diagnosis(), "Found a duplicate flag for `--a`");
    let e = ctx.add_flag(Flag::from(("--", Type::Int, "", false, None::<&str>))).unwrap_err();
    assert_eq!(e.kind(), ErrorKind::Other);
    assert_eq!(e.diagnosis(), "`--` is an invalid name for a Flag");
    assert_eq!(ctx.remove_flag("--a").unwrap().name, "--a");
    let e = ctx.remove_flag("--a").unwrap_err();
    assert_eq!(e.kind(), ErrorKind::MissingFlag);
    assert_eq!(e.diagnosis(), "Flag `--a` never existed within the context");
    assert!(ctx.flags().is_empty());
}

#[test]
fn add_many_stops_at_the_first_rejected() {
    let mut ctx = Context::new();
    let r = ctx.add_args(&[
        Arg::from(("a", Type::Str, "", true, None)),
        Arg::from(("b", Type::Str, "", true, None)),
        Arg::from(("a", Type::Str, "", true, None)),
        Arg::from(("c", Type::Str, "", true, None)),
    ]);
    assert_eq!(r.unwrap_err().kind(), ErrorKind::DuplicateArgument);
    assert_eq!(ctx.args().len(), 2);
    let r = ctx.add_flags(&[
        Flag::from(("--x", Type::Str, "", true, None::<&str>)),
        Flag::from(("--y", Type::Bool, "", true, None::<&str>)),
    ]);
    assert!(r.is_ok());
    assert_eq!(ctx.flags().len(), 2);
    assert_eq!(ctx.clone().flags().len(), 2);
}

#[test]
fn error_accessors_and_equality() {
    let e = Error::new(ErrorKind::MissingValue, String::from("no value"));
    assert_eq!(e.kind(), ErrorKind::MissingValue);
    assert_eq!(e.diagnosis(), "no value");
    let f = Error::new(ErrorKind::MissingValue, String::from("other text"));
    assert!(e == f);
    let g = Error::new(ErrorKind::Other, String::from("no value"));
    assert!(e != g);
    assert_eq!(e.clone().diagnosis(), "no value");
}

#[test]
fn value_unwrapping() {
    let s = Value::Str(String::from("x"));
    let fallback = String::from("y");
    assert_eq!(s.unwrap_str(), "x");
    assert_eq!(s.unwrap_str_or(&fallback), "x");
    assert_eq!(Value::Null.unwrap_str_or(&fallback), "y");
    assert!(Value::Null.is_null());
    assert!(!s.is_null());
    assert!(*Value::Bool(true).unwrap_bool());
    assert!(!*Value::Null.unwrap_bool_or(&false));
    assert!(!*Value::Bool(false).unwrap_bool_or(&true));
    assert_eq!(*Value::Int(4).unwrap_int(), 4);
    assert_eq!(*Value::Int(4).unwrap_int_or(&9), 4);
    assert_eq!(*Value::Null.unwrap_int_or(&9), 9);
}

#[test]
fn usage_text_lists_arguments_and_flags() {
    let ctx = Context::from((
        &[("name", Type::Str, "Your name", true, None)],
        &[("--repeat", Type::Int, "The amount of times to greet", false, Some("1"))],
    ));
    let expected = format!(
        "Usage: greet [OPTIONS] <NAME>\n\nARGUMENTS\n--------\n{:>15}   Your name\n\nOPTIONS\n------\n{:>15}   The amount of times to greet [DEFAULT=1]\n{:>15}   Displays this message",
        "<NAME>", "--repeat", "--help"
    );
    assert_eq!(usage("greet", &ctx), expected);
}

#[test]
fn usage_text_without_arguments() {
    let ctx = Context::new();
    let expected = format!("Usage: app [OPTIONS] \n\nOPTIONS\n------\n{:>15}   Displays this message", "--help");
    assert_eq!(usage("app", &ctx), expected);
}

#[test]
fn usage_text_keeps_long_names_whole() {
    let ctx = Context::from((
        &[("a", Type::Str, "first", true, None), ("bb", Type::Str, "second", false, Some("z"))],
        &[("--a-very-long-flag-name", Type::Bool, "long", false, None)],
    ));
    let expected = format!(
        "Usage: p [OPTIONS] <A> <BB>\n\nARGUMENTS\n--------\n{:>15}   first\n{:>15}   second [DEFAULT=z]\n\nOPTIONS\n------\n--a-very-long-flag-name   long\n{:>15}   Displays this message",
        "<A>", "<BB>", "--help"
    );
    assert_eq!(usage("p", &ctx), expected);
}

#[test]
fn error_text_points_to_help() {
    let e = Error::new(ErrorKind::MissingArgument, String::from("Missing argument `<X>`"));
    assert_eq!(error_message(&e), "Missing argument `<X>`\n\nFor more information, try passing `--help`.");
}
