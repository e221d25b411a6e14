//! Small helpers for the front ends.
use vstd::prelude::*;

verus! {

/// The code of the first character of a text, if it has one.
pub fn string_to_ord(s: &str) -> (out: Option<usize>)
    ensures
        s@.len() == 0 ==> out is None,
        s@.len() > 0 ==> out == Some(s@[0] as usize),
{
    let mut chars = s.chars();
    let c = chars.next();
    match c {
        Some(c) => Some(c as usize),
        None => None,
    }
}

} // verus!
