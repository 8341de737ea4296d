//! The declaration handed to the parser.
use vstd::prelude::*;

use crate::builder::arg::Arg;
use crate::builder::arg::str_option_view;
use crate::builder::flag::Flag;
use crate::Type;
use crate::errors::Error;
use crate::errors::ErrorKind;
use crate::text::same_text;

verus! {

/// The escape marker, which no argument or flag may be named.
pub open spec fn escape_marker() -> Seq<char> {
    "--"@
}

pub open spec fn arg_names(args: Seq<Arg>) -> Seq<Seq<char>> {
    args.map_values(|a: Arg| a.name@)
}

pub open spec fn flag_names(flags: Seq<Flag>) -> Seq<Seq<char>> {
    flags.map_values(|f: Flag| f.name@)
}

/// Whether `k` is the first position of `t` in `names`.
pub open spec fn is_first_index(names: Seq<Seq<char>>, t: Seq<char>, k: int) -> bool {
    &&& 0 <= k < names.len()
    &&& names[k] == t
    &&& forall|j: int| 0 <= j < k ==> names[j] != t
}

/// The first position of `t` in `names`, or -1 where it does not occur.
pub open spec fn first_index(names: Seq<Seq<char>>, t: Seq<char>) -> int {
    if exists|k: int| is_first_index(names, t, k) {
        choose|k: int| is_first_index(names, t, k)
    } else {
        -1
    }
}

pub open spec fn names_unique(names: Seq<Seq<char>>) -> bool {
    forall|i: int, j: int| 0 <= i < j < names.len() ==> names[i] != names[j]
}

/// Why an argument named `name` cannot join `existing`, if it cannot.
pub open spec fn arg_rejection(existing: Seq<Arg>, name: Seq<char>) -> Option<(ErrorKind, Seq<char>)> {
    if name == escape_marker() {
        Some((ErrorKind::Other, "`--` is an invalid name for an Arg"@))
    } else if arg_names(existing).contains(name) {
        Some((ErrorKind::DuplicateArgument, "Found a duplicate argument for `"@ + name + "`"@))
    } else {
        None
    }
}

/// Why a flag named `name` cannot join `existing`, if it cannot.
pub open spec fn flag_rejection(existing: Seq<Flag>, name: Seq<char>) -> Option<(ErrorKind, Seq<char>)> {
    if name == escape_marker() {
        Some((ErrorKind::Other, "`--` is an invalid name for a Flag"@))
    } else if flag_names(existing).contains(name) {
        Some((ErrorKind::DuplicateFlag, "Found a duplicate flag for `"@ + name + "`"@))
    } else {
        None
    }
}

/// Each of `new` before position `k` is accepted by `existing` grown by
/// those before it.
pub open spec fn args_admitted(existing: Seq<Arg>, new: Seq<Arg>, k: int) -> bool {
    forall|j: int| 0 <= j < k ==> (#[trigger] arg_rejection(existing + new.take(j), new[j].name@)) is None
}

/// Each of `new` before position `k` is accepted by `existing` grown by
/// those before it.
pub open spec fn flags_admitted(existing: Seq<Flag>, new: Seq<Flag>, k: int) -> bool {
    forall|j: int| 0 <= j < k ==> (#[trigger] flag_rejection(existing + new.take(j), new[j].name@)) is None
}

pub proof fn lemma_first_index(names: Seq<Seq<char>>, t: Seq<char>, k: int)
    requires
        is_first_index(names, t, k),
    ensures
        first_index(names, t) == k,
{
    let c = choose|c: int| is_first_index(names, t, c);
    assert(is_first_index(names, t, c));
    if c < k {
        assert(names[c] != t);
    } else if c > k {
        assert(names[k] != t);
    }
}

pub proof fn lemma_no_index(names: Seq<Seq<char>>, t: Seq<char>)
    requires
        !names.contains(t),
    ensures
        first_index(names, t) == -1,
{
    if exists|k: int| is_first_index(names, t, k) {
        let c = choose|c: int| is_first_index(names, t, c);
        assert(names[c] == t);
    }
}

/// The positional arguments, in binding order, and the flags of a command
/// line.
#[derive(Debug)]
pub struct Context {
    pub args: Vec<Arg>,
    pub flags: Vec<Flag>,
}

impl Context {
    /// Names are unique within each list, and none is the escape marker:
    /// what `add_arg` and `add_flag` keep.
    pub open spec fn wf(&self) -> bool {
        &&& names_unique(arg_names(self.args@))
        &&& names_unique(flag_names(self.flags@))
        &&& !arg_names(self.args@).contains(escape_marker())
        &&& !flag_names(self.flags@).contains(escape_marker())
    }

    pub fn new() -> (r: Self)
        ensures
            r.args@ == Seq::<Arg>::empty(),
            r.flags@ == Seq::<Flag>::empty(),
            r.wf(),
    {
        Context { args: Vec::new(), flags: Vec::new() }
    }

    pub fn args(&self) -> (r: Vec<Arg>)
        ensures
            r@ == self.args@,
    {
        let r = self.args.clone();
        proof {
            assert(r@ =~= self.args@);
        }
        r
    }

    pub fn flags(&self) -> (r: Vec<Flag>)
        ensures
            r@ == self.flags@,
    {
        let r = self.flags.clone();
        proof {
            assert(r@ =~= self.flags@);
        }
        r
    }

    /// The position of the first argument named `name`.
    fn arg_position(&self, name: &str) -> (r: Option<usize>)
        ensures
            r matches Some(k) ==> is_first_index(arg_names(self.args@), name@, k as int),
            r is None ==> !arg_names(self.args@).contains(name@),
            r matches Some(k) ==> first_index(arg_names(self.args@), name@) == k,
            r is None ==> first_index(arg_names(self.args@), name@) == -1,
    {
        let mut i: usize = 0;
        while i < self.args.len()
            invariant
                i <= self.args@.len(),
                forall|j: int| 0 <= j < i ==> arg_names(self.args@)[j] != name@,
            decreases self.args@.len() - i,
        {
            if same_text(self.args[i].name.as_str(), name) {
                proof {
                    lemma_first_index(arg_names(self.args@), name@, i as int);
                }
                return Some(i);
            }
            i = i + 1;
        }
        proof {
            lemma_no_index(arg_names(self.args@), name@);
        }
        None
    }

    /// The position of the first flag named `name`.
    pub(crate) fn flag_position(&self, name: &str) -> (r: Option<usize>)
        ensures
            r matches Some(k) ==> is_first_index(flag_names(self.flags@), name@, k as int),
            r is None ==> !flag_names(self.flags@).contains(name@),
            r matches Some(k) ==> first_index(flag_names(self.flags@), name@) == k,
            r is None ==> first_index(flag_names(self.flags@), name@) == -1,
    {
        let mut i: usize = 0;
        while i < self.flags.len()
            invariant
                i <= self.flags@.len(),
                forall|j: int| 0 <= j < i ==> flag_names(self.flags@)[j] != name@,
            decreases self.flags@.len() - i,
        {
            if same_text(self.flags[i].name.as_str(), name) {
                proof {
                    lemma_first_index(flag_names(self.flags@), name@, i as int);
                }
                return Some(i);
            }
            i = i + 1;
        }
        proof {
            lemma_no_index(flag_names(self.flags@), name@);
        }
        None
    }

    pub fn contains_arg(&self, name: &str) -> (r: bool)
        ensures
            r == arg_names(self.args@).contains(name@),
    {
        self.arg_position(name).is_some()
    }

    /// The first argument named `name`.
    pub fn get_arg(&self, name: &str) -> (r: Option<Arg>)
        ensures
            ({
                let k = first_index(arg_names(self.args@), name@);
                r == if k >= 0 { Some(self.args@[k]) } else { None::<Arg> }
            }),
    {
        match self.arg_position(name) {
            Some(k) => Some(self.args[k].clone()),
            None => None,
        }
    }

    pub fn add_arg(&mut self, arg: Arg) -> (r: Result<(), Error>)
        ensures
            final(self).flags@ == old(self).flags@,
            match arg_rejection(old(self).args@, arg.name@) {
                None => r is Ok && final(self).args@ == old(self).args@.push(arg),
                Some(e) => r matches Err(err) && err@ == e && final(self).args@ == old(self).args@,
            },
            old(self).wf() ==> final(self).wf(),
    {
        if same_text(arg.name.as_str(), "--") {
            return Err(Error::new(ErrorKind::Other, String::from_str("`--` is an invalid name for an Arg")));
        }
        if self.contains_arg(arg.name.as_str()) {
            let mut m = String::from_str("Found a duplicate argument for `");
            m.append(arg.name.as_str());
            m.append("`");
            return Err(Error::new(ErrorKind::DuplicateArgument, m));
        }
        let ghost before = self.args@;
        self.args.push(arg);
        proof {
            assert(arg_names(self.args@) =~= arg_names(before).push(arg.name@));
        }
        Ok(())
    }

    /// Takes out the first argument named `name`.
    pub fn remove_arg(&mut self, name: &str) -> (r: Result<Arg, Error>)
        ensures
            final(self).flags@ == old(self).flags@,
            ({
                let k = first_index(arg_names(old(self).args@), name@);
                if k >= 0 {
                    r == Ok::<Arg, Error>(old(self).args@[k]) && final(self).args@ == old(self).args@.remove(k)
                } else {
                    r matches Err(err) && err@ == (
                        ErrorKind::MissingArgument,
                        "Argument `"@ + name@ + "` never existed within the context"@,
                    ) && final(self).args@ == old(self).args@
                }
            }),
            old(self).wf() ==> final(self).wf(),
    {
        match self.arg_position(name) {
            None => {
                let mut m = String::from_str("Argument `");
                m.append(name);
                m.append("` never existed within the context");
                Err(Error::new(ErrorKind::MissingArgument, m))
            },
            Some(k) => {
                let ghost before = self.args@;
                let a = self.args.remove(k);
                proof {
                    assert(arg_names(self.args@) =~= arg_names(before).remove(k as int));
                }
                Ok(a)
            },
        }
    }

    pub fn add_args(&mut self, args: &[Arg]) -> (r: Result<(), Error>)
        ensures
            final(self).flags@ == old(self).flags@,
            match r {
                Ok(_) => args_admitted(old(self).args@, args@, args@.len() as int)
                    && final(self).args@ == old(self).args@ + args@,
                Err(e) => exists|k: int|
                    0 <= k < args@.len() && args_admitted(old(self).args@, args@, k)
                        && arg_rejection(old(self).args@ + args@.take(k), args@[k].name@)
                        == Some(e@) && final(self).args@ == old(self).args@ + args@.take(k),
            },
            old(self).wf() ==> final(self).wf(),
    {
        let ghost start = self.args@;
        let ghost start_ok = self.wf();
        let mut i: usize = 0;
        while i < args.len()
            invariant
                i <= args@.len(),
                self.args@ == start + args@.take(i as int),
                self.flags@ == old(self).flags@,
                start == old(self).args@,
                start_ok == old(self).wf(),
                args_admitted(start, args@, i as int),
                start_ok ==> self.wf(),
            decreases args@.len() - i,
        {
            let res = self.add_arg(args[i].clone());
            match res {
                Err(e) => {
                    return Err(e);
                },
                Ok(_) => {},
            }
            proof {
                assert(start + args@.take(i + 1) =~= (start + args@.take(i as int)).push(args@[i as int]));
            }
            i = i + 1;
        }
        proof {
            assert(args@.take(args@.len() as int) =~= args@);
        }
        Ok(())
    }

    pub fn contains_flag(&self, name: &str) -> (r: bool)
        ensures
            r == flag_names(self.flags@).contains(name@),
    {
        self.flag_position(name).is_some()
    }

    /// The first flag named `name`.
    pub fn get_flag(&self, name: &str) -> (r: Option<Flag>)
        ensures
            ({
                let k = first_index(flag_names(self.flags@), name@);
                r == if k >= 0 { Some(self.flags@[k]) } else { None::<Flag> }
            }),
    {
        match self.flag_position(name) {
            Some(k) => Some(self.flags[k].clone()),
            None => None,
        }
    }

    pub fn add_flag(&mut self, flag: Flag) -> (r: Result<(), Error>)
        ensures
            final(self).args@ == old(self).args@,
            match flag_rejection(old(self).flags@, flag.name@) {
                None => r is Ok && final(self).flags@ == old(self).flags@.push(flag),
                Some(e) => r matches Err(err) && err@ == e && final(self).flags@ == old(self).flags@,
            },
            old(self).wf() ==> final(self).wf(),
    {
        if same_text(flag.name.as_str(), "--") {
            return Err(Error::new(ErrorKind::Other, String::from_str("`--` is an invalid name for a Flag")));
        }
        if self.contains_flag(flag.name.as_str()) {
            let mut m = String::from_str("Found a duplicate flag for `");
            m.append(flag.name.as_str());
            m.append("`");
            return Err(Error::new(ErrorKind::DuplicateFlag, m));
        }
        let ghost before = self.flags@;
        self.flags.push(flag);
        proof {
            assert(flag_names(self.flags@) =~= flag_names(before).push(flag.name@));
        }
        Ok(())
    }

    /// Takes out the first flag named `name`.
    pub fn remove_flag(&mut self, name: &str) -> (r: Result<Flag, Error>)
        ensures
            final(self).args@ == old(self).args@,
            ({
                let k = first_index(flag_names(old(self).flags@), name@);
                if k >= 0 {
                    r == Ok::<Flag, Error>(old(self).flags@[k]) && final(self).flags@ == old(self).flags@.remove(k)
                } else {
                    r matches Err(err) && err@ == (
                        ErrorKind::MissingFlag,
                        "Flag `"@ + name@ + "` never existed within the context"@,
                    ) && final(self).flags@ == old(self).flags@
                }
            }),
            old(self).wf() ==> final(self).wf(),
    {
        match self.flag_position(name) {
            None => {
                let mut m = String::from_str("Flag `");
                m.append(name);
                m.append("` never existed within the context");
                Err(Error::new(ErrorKind::MissingFlag, m))
            },
            Some(k) => {
                let ghost before = self.flags@;
                let a = self.flags.remove(k);
                proof {
                    assert(flag_names(self.flags@) =~= flag_names(before).remove(k as int));
                }
                Ok(a)
            },
        }
    }

    pub fn add_flags(&mut self, flags: &[Flag]) -> (r: Result<(), Error>)
        ensures
            final(self).args@ == old(self).args@,
            match r {
                Ok(_) => flags_admitted(old(self).flags@, flags@, flags@.len() as int)
                    && final(self).flags@ == old(self).flags@ + flags@,
                Err(e) => exists|k: int|
                    0 <= k < flags@.len() && flags_admitted(old(self).flags@, flags@, k)
                        && flag_rejection(old(self).flags@ + flags@.take(k), flags@[k].name@)
                        == Some(e@) && final(self).flags@ == old(self).flags@ + flags@.take(k),
            },
            old(self).wf() ==> final(self).wf(),
    {
        let ghost start = self.flags@;
        let ghost start_ok = self.wf();
        let mut i: usize = 0;
        while i < flags.len()
            invariant
                i <= flags@.len(),
                self.flags@ == start + flags@.take(i as int),
                self.args@ == old(self).args@,
                start == old(self).flags@,
                start_ok == old(self).wf(),
                flags_admitted(start, flags@, i as int),
                start_ok ==> self.wf(),
            decreases flags@.len() - i,
        {
            let res = self.add_flag(flags[i].clone());
            match res {
                Err(e) => {
                    return Err(e);
                },
                Ok(_) => {},
            }
            proof {
                assert(start + flags@.take(i + 1) =~= (start + flags@.take(i as int)).push(flags@[i as int]));
            }
            i = i + 1;
        }
        proof {
            assert(flags@.take(flags@.len() as int) =~= flags@);
        }
        Ok(())
    }
}

/// Builds the arguments that a list of tuples describes.
fn args_of(list: &[(&str, Type, &str, bool, Option<&str>)]) -> (r: Vec<Arg>)
    ensures
        r@.len() == list@.len(),
        forall|i: int|
            0 <= i < list@.len() ==> (#[trigger] r@[i]).describes(
                list@[i].0@,
                list@[i].1,
                list@[i].2@,
                list@[i].3,
                str_option_view(list@[i].4),
            ),
{
    let mut r: Vec<Arg> = Vec::new();
    let mut i: usize = 0;
    while i < list.len()
        invariant
            i <= list@.len(),
            r@.len() == i,
            forall|j: int|
                0 <= j < i ==> (#[trigger] r@[j]).describes(
                    list@[j].0@,
                    list@[j].1,
                    list@[j].2@,
                    list@[j].3,
                    str_option_view(list@[j].4),
                ),
        decreases list@.len() - i,
    {
        r.push(Arg::from(&list[i]));
        i = i + 1;
    }
    r
}

/// Builds the flags that a list of tuples describes.
fn flags_of(list: &[(&str, Type, &str, bool, Option<&str>)]) -> (r: Vec<Flag>)
    ensures
        r@.len() == list@.len(),
        forall|i: int|
            0 <= i < list@.len() ==> (#[trigger] r@[i]).describes(
                list@[i].0@,
                list@[i].1,
                list@[i].2@,
                list@[i].3,
                str_option_view(list@[i].4),
            ),
{
    let mut r: Vec<Flag> = Vec::new();
    let mut i: usize = 0;
    while i < list.len()
        invariant
            i <= list@.len(),
            r@.len() == i,
            forall|j: int|
                0 <= j < i ==> (#[trigger] r@[j]).describes(
                    list@[j].0@,
                    list@[j].1,
                    list@[j].2@,
                    list@[j].3,
                    str_option_view(list@[j].4),
                ),
        decreases list@.len() - i,
    {
        r.push(Flag::from(&list[i]));
        i = i + 1;
    }
    r
}

fn copy_args(list: &[Arg]) -> (r: Vec<Arg>)
    ensures
        r@ == list@,
{
    let mut r: Vec<Arg> = Vec::new();
    let mut i: usize = 0;
    while i < list.len()
        invariant
            i <= list@.len(),
            r@ == list@.take(i as int),
        decreases list@.len() - i,
    {
        r.push(list[i].clone());
        proof {
            assert(list@.take(i + 1) =~= list@.take(i as int).push(list@[i as int]));
        }
        i = i + 1;
    }
    proof {
        assert(list@.take(list@.len() as int) =~= list@);
    }
    r
}

fn copy_flags(list: &[Flag]) -> (r: Vec<Flag>)
    ensures
        r@ == list@,
{
    let mut r: Vec<Flag> = Vec::new();
    let mut i: usize = 0;
    while i < list.len()
        invariant
            i <= list@.len(),
            r@ == list@.take(i as int),
        decreases list@.len() - i,
    {
        r.push(list[i].clone());
        proof {
            assert(list@.take(i + 1) =~= list@.take(i as int).push(list@[i as int]));
        }
        i = i + 1;
    }
    proof {
        assert(list@.take(list@.len() as int) =~= list@);
    }
    r
}

/// Whether `ctx` holds the arguments and the flags that two lists of tuples
/// describe.
pub open spec fn built_from(ctx: Context, args: Seq<(&str, Type, &str, bool, Option<&str>)>, flags: Seq<(&str, Type, &str, bool, Option<&str>)>) -> bool {
    &&& ctx.args@.len() == args.len()
    &&& ctx.flags@.len() == flags.len()
    &&& forall|i: int|
        0 <= i < args.len() ==> (#[trigger] ctx.args@[i]).describes(
            args[i].0@,
            args[i].1,
            args[i].2@,
            args[i].3,
            str_option_view(args[i].4),
        )
    &&& forall|j: int|
        0 <= j < flags.len() ==> (#[trigger] ctx.flags@[j]).describes(
            flags[j].0@,
            flags[j].1,
            flags[j].2@,
            flags[j].3,
            str_option_view(flags[j].4),
        )
}

/// Builds a context from a list of argument tuples and a list of flag
/// tuples, as they stand: names are not checked for duplicates. The
/// contract is stated on the fields' texts, so `from_spec` is not used.
impl<const A: usize, const B: usize> From<&(&[(&str, Type, &str, bool, Option<&str>); A], &[(&str, Type, &str, bool, Option<&str>); B])> for Context {
    fn from(t: &(&[(&str, Type, &str, bool, Option<&str>); A], &[(&str, Type, &str, bool, Option<&str>); B])) -> (r: Context)
        ensures
            built_from(r, t.0@, t.1@),
    {
        Context { args: args_of(t.0.as_slice()), flags: flags_of(t.1.as_slice()) }
    }
}

impl<const A: usize, const B: usize> vstd::std_specs::convert::FromSpecImpl<&(&[(&str, Type, &str, bool, Option<&str>); A], &[(&str, Type, &str, bool, Option<&str>); B])> for Context {
    open spec fn obeys_from_spec() -> bool {
        false
    }

    open spec fn from_spec(t: &(&[(&str, Type, &str, bool, Option<&str>); A], &[(&str, Type, &str, bool, Option<&str>); B])) -> Context {
        arbitrary()
    }
}

impl<const A: usize, const B: usize> From<(&[(&str, Type, &str, bool, Option<&str>); A], &[(&str, Type, &str, bool, Option<&str>); B])> for Context {
    fn from(t: (&[(&str, Type, &str, bool, Option<&str>); A], &[(&str, Type, &str, bool, Option<&str>); B])) -> (r: Context)
        ensures
            built_from(r, t.0@, t.1@),
    {
        Context { args: args_of(t.0.as_slice()), flags: flags_of(t.1.as_slice()) }
    }
}

impl<const A: usize, const B: usize> vstd::std_specs::convert::FromSpecImpl<(&[(&str, Type, &str, bool, Option<&str>); A], &[(&str, Type, &str, bool, Option<&str>); B])> for Context {
    open spec fn obeys_from_spec() -> bool {
        false
    }

    open spec fn from_spec(t: (&[(&str, Type, &str, bool, Option<&str>); A], &[(&str, Type, &str, bool, Option<&str>); B])) -> Context {
        arbitrary()
    }
}

/// Builds a context from a list of arguments and a list of flags, as they
/// stand: names are not checked for duplicates.
impl<const A: usize, const B: usize> From<&(&[Arg; A], &[Flag; B])> for Context {
    fn from(t: &(&[Arg; A], &[Flag; B])) -> (r: Context)
        ensures
            r.args@ == t.0@,
            r.flags@ == t.1@,
    {
        Context { args: copy_args(t.0.as_slice()), flags: copy_flags(t.1.as_slice()) }
    }
}

impl<const A: usize, const B: usize> vstd::std_specs::convert::FromSpecImpl<&(&[Arg; A], &[Flag; B])> for Context {
    open spec fn obeys_from_spec() -> bool {
        false
    }

    open spec fn from_spec(t: &(&[Arg; A], &[Flag; B])) -> Context {
        arbitrary()
    }
}

impl<const A: usize, const B: usize> From<(&[Arg; A], &[Flag; B])> for Context {
    fn from(t: (&[Arg; A], &[Flag; B])) -> (r: Context)
        ensures
            r.args@ == t.0@,
            r.flags@ == t.1@,
    {
        Context { args: copy_args(t.0.as_slice()), flags: copy_flags(t.1.as_slice()) }
    }
}

impl<const A: usize, const B: usize> vstd::std_specs::convert::FromSpecImpl<(&[Arg; A], &[Flag; B])> for Context {
    open spec fn obeys_from_spec() -> bool {
        false
    }

    open spec fn from_spec(t: (&[Arg; A], &[Flag; B])) -> Context {
        arbitrary()
    }
}

/// An empty context.
impl Default for Context {
    fn default() -> (r: Context)
        ensures
            r.args@ == Seq::<Arg>::empty(),
            r.flags@ == Seq::<Flag>::empty(),
    {
        Context::new()
    }
}

impl Clone for Context {
    fn clone(&self) -> (r: Context)
        ensures
            r.args@ == self.args@,
            r.flags@ == self.flags@,
    {
        Context { args: copy_args(self.args.as_slice()), flags: copy_flags(self.flags.as_slice()) }
    }
}

} // verus!
