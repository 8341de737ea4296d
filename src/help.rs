//! The texts shown to the user: the usage text, and the short text of an
//! error.
use vstd::prelude::*;

use crate::builder::arg::Arg;
use crate::builder::flag::Flag;
use crate::errors::Error;
use crate::text::upper_of;
use crate::text::uppercase;
use crate::Context;

verus! {

/// The width that names are right-aligned to in the usage text.
pub const NAME_WIDTH: usize = 15;

pub open spec fn spaces(n: nat) -> Seq<char> {
    Seq::new(n, |i: int| ' ')
}

/// `s` right-aligned to `NAME_WIDTH` characters; a longer `s` is kept whole.
pub open spec fn right_aligned(s: Seq<char>) -> Seq<char> {
    if s.len() < NAME_WIDTH {
        spaces((NAME_WIDTH - s.len()) as nat) + s
    } else {
        s
    }
}

/// The lines joined, with `sep` between each two.
pub open spec fn joined(lines: Seq<Seq<char>>, sep: Seq<char>) -> Seq<char>
    decreases lines.len(),
{
    if lines.len() == 0 {
        Seq::empty()
    } else if lines.len() == 1 {
        lines[0]
    } else {
        joined(lines.drop_last(), sep) + sep + lines.last()
    }
}

pub open spec fn default_note(d: Option<String>) -> Seq<char> {
    match d {
        Some(d) => " [DEFAULT="@ + d@ + "]"@,
        None => Seq::empty(),
    }
}

/// How an argument is written in the usage text: its name upper-cased, in
/// angle brackets.
pub open spec fn arg_label(a: Arg) -> Seq<char> {
    "<"@ + upper_of(a.name@) + ">"@
}

pub open spec fn arg_line(a: Arg) -> Seq<char> {
    right_aligned(arg_label(a)) + "   "@ + a.help@ + default_note(a.default)
}

pub open spec fn flag_line(f: Flag) -> Seq<char> {
    right_aligned(f.name@) + "   "@ + f.help@ + default_note(f.default)
}

pub open spec fn help_line() -> Seq<char> {
    right_aligned("--help"@) + "   Displays this message"@
}

/// The usage text of a program called `program` with the declaration of
/// `args` and `flags`: a synopsis, then a line for each argument, then a
/// line for each flag and one for `--help`.
pub open spec fn usage_text(program: Seq<char>, args: Seq<Arg>, flags: Seq<Flag>) -> Seq<char> {
    "Usage: "@ + program + " [OPTIONS] "@ + (if args.len() > 0 {
        joined(args.map_values(|a: Arg| arg_label(a)), " "@) + "\n\nARGUMENTS\n--------\n"@ + joined(
            args.map_values(|a: Arg| arg_line(a)),
            "\n"@,
        )
    } else {
        Seq::empty()
    }) + "\n\nOPTIONS\n------\n"@ + joined(
        flags.map_values(|f: Flag| flag_line(f)).push(help_line()),
        "\n"@,
    )
}

/// The short text of an error, which points to `--help`.
pub open spec fn error_text(diagnosis: Seq<char>) -> Seq<char> {
    diagnosis + "\n\nFor more information, try passing `--help`."@
}

/// Appends `s` right-aligned to `NAME_WIDTH` characters.
fn append_aligned(out: &mut String, s: &str)
    ensures
        final(out)@ == old(out)@ + right_aligned(s@),
{
    let n = s.unicode_len();
    if n < NAME_WIDTH {
        let mut i: usize = 0;
        let ghost start = out@;
        while i < NAME_WIDTH - n
            invariant
                i <= NAME_WIDTH - n,
                out@ == start + spaces(i as nat),
            decreases NAME_WIDTH - n - i,
        {
            out.append(" ");
            proof {
                reveal_strlit(" ");
                assert(spaces((i + 1) as nat) =~= spaces(i as nat).push(' '));
                assert(start + spaces((i + 1) as nat) =~= start + spaces(i as nat) + " "@);
            }
            i = i + 1;
        }
        out.append(s);
        proof {
            assert(start + spaces(i as nat) + s@ =~= start + (spaces(i as nat) + s@));
        }
    } else {
        out.append(s);
    }
}

fn append_default(out: &mut String, d: &Option<String>)
    ensures
        final(out)@ == old(out)@ + default_note(*d),
{
    match d {
        Some(d) => {
            let ghost start = out@;
            out.append(" [DEFAULT=");
            out.append(d.as_str());
            out.append("]");
            proof {
                assert(start + " [DEFAULT="@ + d@ + "]"@ =~= start + (" [DEFAULT="@ + d@ + "]"@));
            }
        },
        None => {
            proof {
                assert(out@ + Seq::<char>::empty() =~= out@);
            }
        },
    }
}

proof fn lemma_joined_step(lines: Seq<Seq<char>>, sep: Seq<char>, i: int)
    requires
        0 <= i < lines.len(),
    ensures
        joined(lines.take(i + 1), sep) == if i == 0 {
            lines[0]
        } else {
            joined(lines.take(i), sep) + sep + lines[i]
        },
{
    assert(lines.take(i + 1).drop_last() =~= lines.take(i));
}

/// The usage text of a program called `program` with the declaration `ctx`.
pub fn usage(program: &str, ctx: &Context) -> (r: String)
    ensures
        r@ == usage_text(program@, ctx.args@, ctx.flags@),
{
    let mut out = String::from_str("Usage: ");
    out.append(program);
    out.append(" [OPTIONS] ");
    let ghost head = out@;
    let ghost labels = ctx.args@.map_values(|a: Arg| arg_label(a));
    let ghost arg_lines = ctx.args@.map_values(|a: Arg| arg_line(a));
    let ghost flag_lines = ctx.flags@.map_values(|f: Flag| flag_line(f)).push(help_line());
    if ctx.args.len() > 0 {
        let mut i: usize = 0;
        while i < ctx.args.len()
            invariant
                i <= ctx.args@.len(),
                labels == ctx.args@.map_values(|a: Arg| arg_label(a)),
                out@ == head + joined(labels.take(i as int), " "@),
            decreases ctx.args@.len() - i,
        {
            proof {
                lemma_joined_step(labels, " "@, i as int);
            }
            let ghost before = out@;
            if i > 0 {
                out.append(" ");
            }
            out.append("<");
            let upper = uppercase(ctx.args[i].name.as_str());
            out.append(upper.as_str());
            out.append(">");
            proof {
                if i == 0 {
                    assert(labels.take(0) =~= Seq::<Seq<char>>::empty());
                    assert(out@ =~= head + labels[0]);
                } else {
                    assert(out@ =~= head + (joined(labels.take(i as int), " "@) + " "@ + labels[i as int]));
                }
            }
            i = i + 1;
        }
        out.append("\n\nARGUMENTS\n--------\n");
        let ghost mid = out@;
        let mut i: usize = 0;
        while i < ctx.args.len()
            invariant
                i <= ctx.args@.len(),
                arg_lines == ctx.args@.map_values(|a: Arg| arg_line(a)),
                out@ == mid + joined(arg_lines.take(i as int), "\n"@),
            decreases ctx.args@.len() - i,
        {
            proof {
                lemma_joined_step(arg_lines, "\n"@, i as int);
            }
            let ghost before = out@;
            if i > 0 {
                out.append("\n");
            }
            let ghost line_start = out@;
            let a = &ctx.args[i];
            let mut label = String::from_str("<");
            let upper = uppercase(a.name.as_str());
            label.append(upper.as_str());
            label.append(">");
            append_aligned(&mut out, label.as_str());
            out.append("   ");
            out.append(a.help.as_str());
            append_default(&mut out, &a.default);
            proof {
                assert(out@ =~= line_start + arg_line(*a));
                if i == 0 {
                    assert(arg_lines.take(0) =~= Seq::<Seq<char>>::empty());
                    assert(out@ =~= mid + arg_lines[0]);
                } else {
                    assert(out@ =~= mid + (joined(arg_lines.take(i as int), "\n"@) + "\n"@ + arg_lines[i as int]));
                }
            }
            i = i + 1;
        }
        proof {
            assert(labels.take(ctx.args@.len() as int) =~= labels);
            assert(arg_lines.take(ctx.args@.len() as int) =~= arg_lines);
        }
    } else {
        proof {
            assert(out@ =~= head + Seq::<char>::empty());
        }
    }
    let ghost body = out@;
    out.append("\n\nOPTIONS\n------\n");
    let ghost opts = out@;
    let mut j: usize = 0;
    while j < ctx.flags.len()
        invariant
            j <= ctx.flags@.len(),
            flag_lines == ctx.flags@.map_values(|f: Flag| flag_line(f)).push(help_line()),
            out@ == opts + joined(flag_lines.take(j as int), "\n"@),
        decreases ctx.flags@.len() - j,
    {
        proof {
            lemma_joined_step(flag_lines, "\n"@, j as int);
        }
        if j > 0 {
            out.append("\n");
        }
        let ghost line_start = out@;
        let f = &ctx.flags[j];
        append_aligned(&mut out, f.name.as_str());
        out.append("   ");
        out.append(f.help.as_str());
        append_default(&mut out, &f.default);
        proof {
            assert(out@ =~= line_start + flag_line(*f));
            assert(flag_lines[j as int] == flag_line(*f));
            if j == 0 {
                assert(flag_lines.take(0) =~= Seq::<Seq<char>>::empty());
                assert(out@ =~= opts + flag_lines[0]);
            } else {
                assert(out@ =~= opts + (joined(flag_lines.take(j as int), "\n"@) + "\n"@ + flag_lines[j as int]));
            }
        }
        j = j + 1;
    }
    proof {
        lemma_joined_step(flag_lines, "\n"@, j as int);
    }
    if j > 0 {
        out.append("\n");
    }
    let ghost line_start = out@;
    append_aligned(&mut out, "--help");
    out.append("   Displays this message");
    proof {
        assert(out@ =~= line_start + help_line());
        if j == 0 {
            assert(flag_lines.take(0) =~= Seq::<Seq<char>>::empty());
            assert(out@ =~= opts + flag_lines[0]);
        } else {
            assert(out@ =~= opts + (joined(flag_lines.take(j as int), "\n"@) + "\n"@ + flag_lines[j as int]));
        }
        assert(flag_lines.take(j + 1) =~= flag_lines);
        assert(out@ =~= usage_text(program@, ctx.args@, ctx.flags@));
    }
    out
}

/// The short text of an error, which points to `--help`.
pub fn error_message(error: &Error) -> (r: String)
    ensures
        r@ == error_text(error@.1),
{
    let mut out = error.diagnosis();
    out.append("\n\nFor more information, try passing `--help`.");
    out
}

} // verus!
