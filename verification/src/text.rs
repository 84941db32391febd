//! Small helpers on text.

use vstd::prelude::*;
use vstd::string::*;

verus! {

/// Tells whether two pieces of text hold the same characters.
pub fn same_text(a: &str, b: &str) -> (same: bool)
    ensures
        same == (a@ == b@),
{
    let left = String::from_str(a);
    let right = String::from_str(b);
    left == right
}

/// Tells whether an optional piece of text is present and equal to `expected`.
pub fn holds_text(candidate: &Option<String>, expected: &str) -> (holds: bool)
    ensures
        holds == (candidate.deep_view() == Some(expected@)),
{
    match candidate {
        Some(text) => same_text(text.as_str(), expected),
        None => false,
    }
}

/// Joins two pieces of text.
pub fn join2(a: &str, b: &str) -> (joined: String)
    ensures
        joined@ == a@ + b@,
{
    let mut joined = String::from_str(a);
    joined.append(b);
    joined
}

/// Joins three pieces of text.
pub fn join3(a: &str, b: &str, c: &str) -> (joined: String)
    ensures
        joined@ == a@ + b@ + c@,
{
    let mut joined = String::from_str(a);
    joined.append(b);
    joined.append(c);
    joined
}

/// Joins five pieces of text.
pub fn join5(a: &str, b: &str, c: &str, d: &str, e: &str) -> (joined: String)
    ensures
        joined@ == a@ + b@ + c@ + d@ + e@,
{
    let mut joined = String::from_str(a);
    joined.append(b);
    joined.append(c);
    joined.append(d);
    joined.append(e);
    joined
}

} // verus!
