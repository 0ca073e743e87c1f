//! A structured document attached to a report.
//!
//! A report may carry a nested, JSON-like document of machine-readable
//! findings. The service only ever reads a shallow portion of it: a named
//! field of an object, the elements of an array, and string leaves. The
//! document is held as a value of this module's own type, so that every
//! lookup the analytics make is specified and verified; the boundary code
//! converts whatever wire representation it received into a [`DocValue`].
use vstd::prelude::*;

verus! {

/// A JSON-like document value.
///
/// Object fields keep their order; a lookup returns the first field with
/// the requested name. Numbers the service never inspects are kept only
/// when they are integers; any other leaf the service cannot hold is
/// represented as [`DocValue::Null`] by the boundary conversion.
#[derive(Debug)]
pub enum DocValue {
    Null,
    Bool(bool),
    Int(i64),
    Str(String),
    Arr(Vec<DocValue>),
    Obj(Vec<(String, DocValue)>),
}

/// The value of the first field named `name` at or after index `i`.
pub open spec fn lookup_from(fields: Seq<(String, DocValue)>, name: Seq<char>, i: int) -> Option<
    DocValue,
>
    decreases fields.len() - i,
{
    if i < 0 || i >= fields.len() {
        None
    } else if fields[i].0@ == name {
        Some(fields[i].1)
    } else {
        lookup_from(fields, name, i + 1)
    }
}

/// The value of the field named `name`, when `doc` is an object that has
/// one; `None` on every other document.
pub open spec fn spec_get_field(doc: DocValue, name: Seq<char>) -> Option<DocValue> {
    match doc {
        DocValue::Obj(fields) => lookup_from(fields@, name, 0),
        _ => None,
    }
}

/// The string under the field named `name`, when there is one; `None`
/// when the field is absent or holds anything but a string.
pub open spec fn spec_get_str(doc: DocValue, name: Seq<char>) -> Option<String> {
    match spec_get_field(doc, name) {
        Some(DocValue::Str(s)) => Some(s),
        _ => None,
    }
}

/// String equality decided over the character sequences.
pub fn str_eq(a: &str, b: &str) -> (r: bool)
    ensures
        r == (a@ == b@),
{
    let owned_a = a.to_owned();
    let owned_b = b.to_owned();
    owned_a == owned_b
}

impl DocValue {
    /// Looks up the field named `name`, returning a borrow of its value.
    pub fn get_field<'a>(&'a self, name: &str) -> (r: Option<&'a DocValue>)
        ensures
            match r {
                Some(v) => spec_get_field(*self, name@) == Some(*v),
                None => spec_get_field(*self, name@) is None,
            },
    {
        match self {
            DocValue::Obj(fields) => {
                let n = fields.len();
                let mut i: usize = 0;
                while i < n
                    invariant
                        *self == DocValue::Obj(*fields),
                        n == fields.len(),
                        0 <= i <= n,
                        lookup_from(fields@, name@, i as int) == lookup_from(fields@, name@, 0),
                    decreases n - i,
                {
                    if str_eq(fields[i].0.as_str(), name) {
                        return Some(&fields[i].1);
                    }
                    i = i + 1;
                }
                None
            },
            _ => None,
        }
    }

    /// Looks up the string under the field named `name`.
    pub fn get_str<'a>(&'a self, name: &str) -> (r: Option<&'a String>)
        ensures
            match r {
                Some(s) => spec_get_str(*self, name@) == Some(*s),
                None => spec_get_str(*self, name@) is None,
            },
    {
        match self.get_field(name) {
            Some(DocValue::Str(s)) => Some(s),
            _ => None,
        }
    }
}

} // verus!
