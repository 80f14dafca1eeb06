//! Per-character Unicode case queries, taken from `char`'s methods in std.
//!
//! What these return is given by Unicode tables: each result is named by an
//! uninterpreted spec function of the character alone.
use vstd::prelude::*;

verus! {

/// Whether `c` has the Unicode `Alphabetic` property.
pub uninterp spec fn alphabetic(c: char) -> bool;

/// Whether `c` has the Unicode `Uppercase` property.
pub uninterp spec fn uppercase(c: char) -> bool;

/// The first character of the full upper-case mapping of `c`.
pub uninterp spec fn upper_first(c: char) -> char;

/// The first character of the full lower-case mapping of `c`.
pub uninterp spec fn lower_first(c: char) -> char;

/// Relies on `char::is_alphabetic`, whose result depends on `c` alone.
#[verifier::external_body]
pub(crate) fn is_alphabetic(c: char) -> (r: bool)
    ensures
        r == alphabetic(c),
{
    c.is_alphabetic()
}

/// Relies on `char::is_uppercase`, whose result depends on `c` alone.
#[verifier::external_body]
pub(crate) fn is_uppercase(c: char) -> (r: bool)
    ensures
        r == uppercase(c),
{
    c.is_uppercase()
}

/// Relies on `char::to_uppercase`: its iterator yields at least one
/// character (`c` itself where there is no mapping); the first is taken.
#[verifier::external_body]
pub(crate) fn to_upper_first(c: char) -> (r: char)
    ensures
        r == upper_first(c),
{
    c.to_uppercase().next().unwrap()
}

/// Relies on `char::to_lowercase`: its iterator yields at least one
/// character (`c` itself where there is no mapping); the first is taken.
#[verifier::external_body]
pub(crate) fn to_lower_first(c: char) -> (r: char)
    ensures
        r == lower_first(c),
{
    c.to_lowercase().next().unwrap()
}

} // verus!
