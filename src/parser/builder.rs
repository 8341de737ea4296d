//! What a parse returns.
use vstd::prelude::*;

use crate::builder::context::first_index;
use crate::text::same_text;

verus! {

/// A parsed value; `Null` where nothing was given and no default declared.
#[derive(Debug)]
pub enum Value {
    Str(String),
    Bool(bool),
    Int(i32),
    Null,
}

impl Value {
    pub fn is_null(&self) -> (r: bool)
        ensures
            r == (*self is Null),
    {
        match self {
            Value::Null => true,
            _ => false,
        }
    }

    pub fn unwrap_str(&self) -> (r: &String)
        requires
            *self is Str,
        ensures
            *r == self->Str_0,
    {
        match self {
            Value::Str(v) => v,
            _ => {
                proof {
                    assert(false);
                }
                unreached()
            },
        }
    }

    /// The text of a `Str` value, or `other` for `Null`.
    pub fn unwrap_str_or<'a>(&'a self, other: &'a String) -> (r: &'a String)
        requires
            *self is Str || *self is Null,
        ensures
            *r == if *self is Null { *other } else { self->Str_0 },
    {
        if self.is_null() {
            return other;
        }
        self.unwrap_str()
    }

    pub fn unwrap_bool(&self) -> (r: &bool)
        requires
            *self is Bool,
        ensures
            *r == self->Bool_0,
    {
        match self {
            Value::Bool(v) => v,
            _ => {
                proof {
                    assert(false);
                }
                unreached()
            },
        }
    }

    /// The truth of a `Bool` value, or `other` for `Null`.
    pub fn unwrap_bool_or<'a>(&'a self, other: &'a bool) -> (r: &'a bool)
        requires
            *self is Bool || *self is Null,
        ensures
            *r == if *self is Null { *other } else { self->Bool_0 },
    {
        if self.is_null() {
            return other;
        }
        self.unwrap_bool()
    }

    pub fn unwrap_int(&self) -> (r: &i32)
        requires
            *self is Int,
        ensures
            *r == self->Int_0,
    {
        match self {
            Value::Int(v) => v,
            _ => {
                proof {
                    assert(false);
                }
                unreached()
            },
        }
    }

    /// The number of an `Int` value, or `other` for `Null`.
    pub fn unwrap_int_or<'a>(&'a self, other: &'a i32) -> (r: &'a i32)
        requires
            *self is Int || *self is Null,
        ensures
            *r == if *self is Null { *other } else { self->Int_0 },
    {
        if self.is_null() {
            return other;
        }
        self.unwrap_int()
    }
}

impl Clone for Value {
    fn clone(&self) -> (r: Self)
        ensures
            r == *self,
    {
        match self {
            Value::Str(s) => Value::Str(s.clone()),
            Value::Bool(b) => Value::Bool(*b),
            Value::Int(i) => Value::Int(*i),
            Value::Null => Value::Null,
        }
    }
}

/// The names of a list of entries, in order.
pub open spec fn entry_names(entries: Seq<(String, Value)>) -> Seq<Seq<char>> {
    entries.map_values(|e: (String, Value)| e.0@)
}

/// The first entry of `entries` named `name`.
fn lookup<'a>(entries: &'a Vec<(String, Value)>, name: &str) -> (r: Option<&'a Value>)
    ensures
        ({
            let k = first_index(entry_names(entries@), name@);
            &&& k >= 0 ==> (r matches Some(v) && *v == entries@[k].1)
            &&& k < 0 ==> r is None
        }),
{
    let mut i: usize = 0;
    while i < entries.len()
        invariant
            i <= entries@.len(),
            forall|j: int| 0 <= j < i ==> entry_names(entries@)[j] != name@,
        decreases entries@.len() - i,
    {
        if same_text(entries[i].0.as_str(), name) {
            proof {
                crate::builder::context::lemma_first_index(entry_names(entries@), name@, i as int);
            }
            return Some(&entries[i].1);
        }
        i = i + 1;
    }
    proof {
        crate::builder::context::lemma_no_index(entry_names(entries@), name@);
    }
    None
}

fn copy_entries(entries: &Vec<(String, Value)>) -> (r: Vec<(String, Value)>)
    ensures
        r@ == entries@,
{
    let mut r: Vec<(String, Value)> = Vec::new();
    let mut i: usize = 0;
    while i < entries.len()
        invariant
            i <= entries@.len(),
            r@ == entries@.take(i as int),
        decreases entries@.len() - i,
    {
        r.push((entries[i].0.clone(), entries[i].1.clone()));
        proof {
            assert(entries@.take(i + 1) =~= entries@.take(i as int).push(entries@[i as int]));
        }
        i = i + 1;
    }
    proof {
        assert(entries@.take(entries@.len() as int) =~= entries@);
    }
    r
}

/// The outcome of a parse: one entry for each declared argument, in
/// declaration order, and one for each declared flag, in declaration order.
#[derive(Debug)]
pub struct ParsedArguments {
    pub arguments: Vec<(String, Value)>,
    pub flags: Vec<(String, Value)>,
}

impl ParsedArguments {
    pub fn new() -> (r: Self)
        ensures
            r.arguments@ == Seq::<(String, Value)>::empty(),
            r.flags@ == Seq::<(String, Value)>::empty(),
    {
        ParsedArguments { arguments: Vec::new(), flags: Vec::new() }
    }

    /// The value of the first argument named `name`.
    pub fn argument(&self, name: &str) -> (r: Option<&Value>)
        ensures
            ({
                let k = first_index(entry_names(self.arguments@), name@);
                &&& k >= 0 ==> (r matches Some(v) && *v == self.arguments@[k].1)
                &&& k < 0 ==> r is None
            }),
    {
        lookup(&self.arguments, name)
    }

    /// The value of the first flag named `name`.
    pub fn flag(&self, name: &str) -> (r: Option<&Value>)
        ensures
            ({
                let k = first_index(entry_names(self.flags@), name@);
                &&& k >= 0 ==> (r matches Some(v) && *v == self.flags@[k].1)
                &&& k < 0 ==> r is None
            }),
    {
        lookup(&self.flags, name)
    }
}

impl Clone for ParsedArguments {
    fn clone(&self) -> (r: Self)
        ensures
            r.arguments@ == self.arguments@,
            r.flags@ == self.flags@,
    {
        ParsedArguments { arguments: copy_entries(&self.arguments), flags: copy_entries(&self.flags) }
    }
}

impl Default for ParsedArguments {
    fn default() -> (r: Self)
        ensures
            r.arguments@ == Seq::<(String, Value)>::empty(),
            r.flags@ == Seq::<(String, Value)>::empty(),
    {
        ParsedArguments::new()
    }
}

} // verus!
