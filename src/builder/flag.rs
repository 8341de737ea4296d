//! A flag of a declaration.
use vstd::prelude::*;

use crate::builder::arg::copy_option;
use crate::builder::arg::default_view;
use crate::builder::arg::own_option;
use crate::builder::arg::str_option_view;
use crate::Type;

verus! {

/// A flag: a token equal to its name, anywhere on the command line; unless
/// it is a `Bool` flag, the token after it is its value.
#[derive(Debug)]
pub struct Flag {
    /// The token that raises the flag, such as `--count`; also the name
    /// under which the parsed value is returned.
    pub name: String,
    /// What the value token, or the default, is turned into; a `Bool` flag
    /// takes no value token.
    pub ty: Type,
    /// A description for the help text.
    pub help: String,
    /// Whether the flag must be given.
    pub is_mandatory: bool,
    /// The text used in place of a missing token.
    pub default: Option<String>,
}

impl Flag {
    pub fn new(
        name: String,
        ty: Type,
        help: String,
        is_mandatory: bool,
        default: Option<String>,
    ) -> (r: Self)
        ensures
            r == (Flag { name, ty, help, is_mandatory, default }),
    {
        Flag { name, ty, help, is_mandatory, default }
    }

    /// Whether the flag has these name, type, description, mandatory mark
    /// and default.
    pub open spec fn describes(
        self,
        name: Seq<char>,
        ty: Type,
        help: Seq<char>,
        is_mandatory: bool,
        default: Option<Seq<char>>,
    ) -> bool {
        &&& self.name@ == name
        &&& self.ty == ty
        &&& self.help@ == help
        &&& self.is_mandatory == is_mandatory
        &&& default_view(self.default) == default
    }

    fn from_parts(name: &str, ty: Type, help: &str, is_mandatory: bool, default: Option<String>) -> (r: Self)
        ensures
            r.describes(name@, ty, help@, is_mandatory, default_view(default)),
    {
        Flag::new(String::from_str(name), ty, String::from_str(help), is_mandatory, default)
    }

    fn get_default(&self) -> (r: Option<String>)
        ensures
            r == self.default,
    {
        copy_option(&self.default)
    }
}

impl Clone for Flag {
    fn clone(&self) -> (r: Self)
        ensures
            r == *self,
    {
        Flag {
            name: self.name.clone(),
            ty: self.ty,
            help: self.help.clone(),
            is_mandatory: self.is_mandatory,
            default: self.get_default(),
        }
    }
}

/// Builds a flag from its name, type, description, mandatory mark and
/// default; the contract is stated on the fields' texts, so `from_spec` is
/// not used.
impl From<(String, Type, String, bool, Option<String>)> for Flag {
    fn from(t: (String, Type, String, bool, Option<String>)) -> (r: Flag)
        ensures
            r.describes(t.0@, t.1, t.2@, t.3, default_view(t.4)),
    {
        Flag::new(t.0, t.1, t.2, t.3, t.4)
    }
}

impl vstd::std_specs::convert::FromSpecImpl<(String, Type, String, bool, Option<String>)> for Flag {
    open spec fn obeys_from_spec() -> bool {
        false
    }

    open spec fn from_spec(t: (String, Type, String, bool, Option<String>)) -> Flag {
        arbitrary()
    }
}

impl From<&(String, Type, String, bool, Option<String>)> for Flag {
    fn from(t: &(String, Type, String, bool, Option<String>)) -> (r: Flag)
        ensures
            r.describes(t.0@, t.1, t.2@, t.3, default_view(t.4)),
    {
        Flag::new(t.0.clone(), t.1, t.2.clone(), t.3, copy_option(&t.4))
    }
}

impl vstd::std_specs::convert::FromSpecImpl<&(String, Type, String, bool, Option<String>)> for Flag {
    open spec fn obeys_from_spec() -> bool {
        false
    }

    open spec fn from_spec(t: &(String, Type, String, bool, Option<String>)) -> Flag {
        arbitrary()
    }
}

impl From<(&str, Type, &str, bool, Option<String>)> for Flag {
    fn from(t: (&str, Type, &str, bool, Option<String>)) -> (r: Flag)
        ensures
            r.describes(t.0@, t.1, t.2@, t.3, default_view(t.4)),
    {
        Flag::from_parts(t.0, t.1, t.2, t.3, t.4)
    }
}

impl vstd::std_specs::convert::FromSpecImpl<(&str, Type, &str, bool, Option<String>)> for Flag {
    open spec fn obeys_from_spec() -> bool {
        false
    }

    open spec fn from_spec(t: (&str, Type, &str, bool, Option<String>)) -> Flag {
        arbitrary()
    }
}

impl From<&(&str, Type, &str, bool, Option<String>)> for Flag {
    fn from(t: &(&str, Type, &str, bool, Option<String>)) -> (r: Flag)
        ensures
            r.describes(t.0@, t.1, t.2@, t.3, default_view(t.4)),
    {
        Flag::from_parts(t.0, t.1, t.2, t.3, copy_option(&t.4))
    }
}

impl vstd::std_specs::convert::FromSpecImpl<&(&str, Type, &str, bool, Option<String>)> for Flag {
    open spec fn obeys_from_spec() -> bool {
        false
    }

    open spec fn from_spec(t: &(&str, Type, &str, bool, Option<String>)) -> Flag {
        arbitrary()
    }
}

impl From<&(&str, Type, &str, bool, Option<&str>)> for Flag {
    fn from(t: &(&str, Type, &str, bool, Option<&str>)) -> (r: Flag)
        ensures
            r.describes(t.0@, t.1, t.2@, t.3, str_option_view(t.4)),
    {
        Flag::from_parts(t.0, t.1, t.2, t.3, own_option(t.4))
    }
}

impl vstd::std_specs::convert::FromSpecImpl<&(&str, Type, &str, bool, Option<&str>)> for Flag {
    open spec fn obeys_from_spec() -> bool {
        false
    }

    open spec fn from_spec(t: &(&str, Type, &str, bool, Option<&str>)) -> Flag {
        arbitrary()
    }
}

impl From<(&str, Type, &str, bool, Option<&str>)> for Flag {
    fn from(t: (&str, Type, &str, bool, Option<&str>)) -> (r: Flag)
        ensures
            r.describes(t.0@, t.1, t.2@, t.3, str_option_view(t.4)),
    {
        Flag::from_parts(t.0, t.1, t.2, t.3, own_option(t.4))
    }
}

impl vstd::std_specs::convert::FromSpecImpl<(&str, Type, &str, bool, Option<&str>)> for Flag {
    open spec fn obeys_from_spec() -> bool {
        false
    }

    open spec fn from_spec(t: (&str, Type, &str, bool, Option<&str>)) -> Flag {
        arbitrary()
    }
}

} // verus!
