//! Settings from the environment.
//!
//! The environment is read through a function that gives the value of a
//! variable, or nothing where it is unset.

use crate::json;
use crate::text;
use vstd::prelude::*;

verus! {

/// Whether the variable `name` may have this value.
pub open spec fn may_read<F: Fn(&str) -> Option<String>>(
    var: F,
    name: Seq<char>,
    value: Option<Seq<char>>,
) -> bool {
    exists|k: &str, v: Option<String>|
        k@ == name && json::optional(v) == value && #[trigger] call_ensures(var, (k,), v)
}

/// Reads a variable.
pub fn read<F: Fn(&str) -> Option<String>>(var: &F, name: &str) -> (r: Option<String>)
    requires
        call_requires(*var, (name,)),
    ensures
        may_read(*var, name@, json::optional(r)),
{
    let r = var(name);
    assert(call_ensures(*var, (name,), r));
    r
}

/// A value that is more than white space; else nothing.
pub open spec fn nonempty(value: Option<Seq<char>>) -> Option<Seq<char>> {
    match value {
        Some(v) => if text::trimmed(v).len() == 0 {
            None
        } else {
            Some(v)
        },
        None => None,
    }
}

/// A value that is more than white space; else nothing.
pub fn nonempty_of(value: Option<String>) -> (r: Option<String>)
    ensures
        json::optional(r) == nonempty(json::optional(value)),
{
    match value {
        Some(v) => if text::trim(v.as_str()).unicode_len() == 0 {
            None
        } else {
            Some(v)
        },
        None => None,
    }
}

} // verus!
