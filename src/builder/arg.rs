//! A positional argument of a declaration.
use vstd::prelude::*;

use crate::Type;

verus! {

/// The text of an optional owned text.
pub open spec fn default_view(d: Option<String>) -> Option<Seq<char>> {
    match d {
        Some(s) => Some(s@),
        None => None,
    }
}

/// The text of an optional borrowed text.
pub open spec fn str_option_view(d: Option<&str>) -> Option<Seq<char>> {
    match d {
        Some(s) => Some(s@),
        None => None,
    }
}

/// Copies an optional borrowed text.
pub(crate) fn own_option(d: Option<&str>) -> (r: Option<String>)
    ensures
        default_view(r) == str_option_view(d),
{
    match d {
        Some(s) => Some(String::from_str(s)),
        None => None,
    }
}

/// Copies an optional owned text.
pub(crate) fn copy_option(d: &Option<String>) -> (r: Option<String>)
    ensures
        r == *d,
{
    match d {
        Some(s) => Some(s.clone()),
        None => None,
    }
}

/// A positional argument: bound to the token at its position among the
/// tokens that are not flags or flag values.
#[derive(Debug)]
pub struct Arg {
    /// The name under which the parsed value is returned.
    pub name: String,
    /// What the token, or the default, is turned into.
    pub ty: Type,
    /// A description for the help text.
    pub help: String,
    /// Whether a token must be given for this argument.
    pub is_mandatory: bool,
    /// The text used in place of a missing token.
    pub default: Option<String>,
}

impl Arg {
    pub fn new(
        name: String,
        ty: Type,
        help: String,
        is_mandatory: bool,
        default: Option<String>,
    ) -> (r: Self)
        ensures
            r == (Arg { name, ty, help, is_mandatory, default }),
    {
        Arg { name, ty, help, is_mandatory, default }
    }

    /// Whether the argument has these name, type, description, mandatory
    /// mark and default.
    pub open spec fn describes(
        self,
        name: Seq<char>,
        ty: Type,
        help: Seq<char>,
        is_mandatory: bool,
        default: Option<Seq<char>>,
    ) -> bool {
        &&& self.name@ == name
        &&& self.ty == ty
        &&& self.help@ == help
        &&& self.is_mandatory == is_mandatory
        &&& default_view(self.default) == default
    }

    fn from_parts(name: &str, ty: Type, help: &str, is_mandatory: bool, default: Option<&str>) -> (r: Self)
        ensures
            r.describes(name@, ty, help@, is_mandatory, str_option_view(default)),
    {
        Arg::new(String::from_str(name), ty, String::from_str(help), is_mandatory, own_option(default))
    }

    pub fn get_name(&self) -> (r: String)
        ensures
            r == self.name,
    {
        self.name.clone()
    }

    pub fn get_type(&self) -> (r: Type)
        ensures
            r == self.ty,
    {
        self.ty
    }

    pub fn get_description(&self) -> (r: String)
        ensures
            r == self.help,
    {
        self.help.clone()
    }

    pub fn is_mandatory(&self) -> (r: bool)
        ensures
            r == self.is_mandatory,
    {
        self.is_mandatory
    }

    pub fn get_default(&self) -> (r: Option<String>)
        ensures
            r == self.default,
    {
        copy_option(&self.default)
    }
}

impl Clone for Arg {
    fn clone(&self) -> (r: Self)
        ensures
            r == *self,
    {
        Arg {
            name: self.name.clone(),
            ty: self.ty,
            help: self.help.clone(),
            is_mandatory: self.is_mandatory,
            default: self.get_default(),
        }
    }
}

/// Builds an argument from its name, type, description, mandatory mark and
/// default; the contract is stated on the fields' texts, so `from_spec` is
/// not used.
impl From<(&str, Type, &str, bool, Option<&str>)> for Arg {
    fn from(t: (&str, Type, &str, bool, Option<&str>)) -> (r: Arg)
        ensures
            r.describes(t.0@, t.1, t.2@, t.3, str_option_view(t.4)),
    {
        Arg::from_parts(t.0, t.1, t.2, t.3, t.4)
    }
}

impl vstd::std_specs::convert::FromSpecImpl<(&str, Type, &str, bool, Option<&str>)> for Arg {
    open spec fn obeys_from_spec() -> bool {
        false
    }

    open spec fn from_spec(t: (&str, Type, &str, bool, Option<&str>)) -> Arg {
        arbitrary()
    }
}

impl From<&(&str, Type, &str, bool, Option<&str>)> for Arg {
    fn from(t: &(&str, Type, &str, bool, Option<&str>)) -> (r: Arg)
        ensures
            r.describes(t.0@, t.1, t.2@, t.3, str_option_view(t.4)),
    {
        Arg::from_parts(t.0, t.1, t.2, t.3, t.4)
    }
}

impl vstd::std_specs::convert::FromSpecImpl<&(&str, Type, &str, bool, Option<&str>)> for Arg {
    open spec fn obeys_from_spec() -> bool {
        false
    }

    open spec fn from_spec(t: &(&str, Type, &str, bool, Option<&str>)) -> Arg {
        arbitrary()
    }
}

} // verus!
