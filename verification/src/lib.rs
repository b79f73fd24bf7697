//! Attaching complementary identifier codes to transit objects.
//!
//! Rule files (delimited text with a header row) list codes to attach to
//! lines, routes, stop points and stop areas. The library parses those
//! files tolerantly, deduplicates the resulting rule records, applies each
//! record to the matching object in the caller's collections, and
//! accumulates a report of the rows and records it had to skip.

use vstd::prelude::*;

pub mod apply_rules;
pub mod collection;
pub mod laws;
pub mod objects;
pub mod parse;
pub mod report;

verus! {

/// Encodes a boolean as the integer the data model's text formats use:
/// `1` for `true`, `0` for `false`.
pub fn ser_from_bool(v: &bool) -> (r: u8)
    ensures
        r == (if *v {
            1u8
        } else {
            0u8
        }),
{
    if *v {
        1
    } else {
        0
    }
}

} // verus!
