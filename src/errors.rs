//! The error returned by the builder and by the parser.
use vstd::prelude::*;

verus! {

/// Which kind of error was met.
#[derive(Debug, Clone, Copy, PartialEq, Eq, Structural)]
pub enum ErrorKind {
    DuplicateFlag,
    DuplicateArgument,
    MissingArgument,
    MissingValue,
    MissingFlag,
    WantsHelp,
    Other,
}

/// An error: its kind and a message for the user.
#[derive(Debug)]
pub struct Error {
    kind: ErrorKind,
    diagnosis: String,
}

impl View for Error {
    type V = (ErrorKind, Seq<char>);

    closed spec fn view(&self) -> (ErrorKind, Seq<char>) {
        (self.kind, self.diagnosis@)
    }
}

impl Error {
    pub fn new(kind: ErrorKind, diagnosis: String) -> (r: Self)
        ensures
            r@ == (kind, diagnosis@),
    {
        Error { kind, diagnosis }
    }

    pub fn kind(&self) -> (r: ErrorKind)
        ensures
            r == self@.0,
    {
        self.kind
    }

    pub fn diagnosis(&self) -> (r: String)
        ensures
            r@ == self@.1,
    {
        self.diagnosis.clone()
    }
}

impl Clone for Error {
    fn clone(&self) -> (r: Self)
        ensures
            r@ == self@,
    {
        Error { kind: self.kind, diagnosis: self.diagnosis.clone() }
    }
}

/// Two errors are equal when their kinds are.
impl PartialEq for Error {
    fn eq(&self, other: &Error) -> (r: bool) {
        self.kind == other.kind
    }
}

impl vstd::std_specs::cmp::PartialEqSpecImpl for Error {
    open spec fn obeys_eq_spec() -> bool {
        true
    }

    open spec fn eq_spec(&self, other: &Error) -> bool {
        self@.0 == other@.0
    }
}

} // verus!
