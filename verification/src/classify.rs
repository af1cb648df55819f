//! The variable classifier: decides, for one variable of the invoking
//! environment, whether it is preserved or dropped.

use vstd::prelude::*;
use vstd::string::StrSliceExecFns;
use crate::glob::str_eq;
use crate::policy::{PolicyList, set_matches};
use crate::entry::EntryModel;

verus! {

/// The classifier's verdict on one variable.
#[derive(PartialEq, Eq, Structural, Clone, Copy, Debug)]
pub enum Classification {
    Preserve,
    Drop,
}

/// Whether a value begins with the two characters `()`, the marker of a
/// shell function definition, which the check list rejects to block
/// function-injection attacks.
pub open spec fn starts_with_function_marker(value: Seq<char>) -> bool {
    value.len() >= 2 && value[0] == '(' && value[1] == ')'
}

/// Whether a variable of the given name and value is preserved. First
/// match wins: `TERM` is always preserved; then a match in the keep list
/// preserves the value verbatim; then a match in the check list preserves
/// it unless it begins with `()`; everything else is dropped. A keep-list
/// match bypasses the function-marker check that a check-list match
/// enforces.
pub open spec fn spec_preserved(
    name: Seq<char>,
    value: Seq<char>,
    keep: Set<EntryModel>,
    check: Set<EntryModel>,
) -> bool {
    if name == "TERM"@ {
        true
    } else if set_matches(keep, name, value) {
        true
    } else if set_matches(check, name, value) {
        !starts_with_function_marker(value)
    } else {
        false
    }
}

/// Whether the string begins with the two characters `()`.
pub fn has_function_marker(value: &str) -> (r: bool)
    ensures
        r == starts_with_function_marker(value@),
{
    if value.unicode_len() < 2 {
        return false;
    }
    value.get_char(0) == '(' && value.get_char(1) == ')'
}

/// Classify one variable of the invoking environment against the folded
/// keep and check lists.
pub fn classify(name: &str, value: &str, keep: &PolicyList, check: &PolicyList) -> (c:
    Classification)
    ensures
        (c == Classification::Preserve) == spec_preserved(name@, value@, keep@, check@),
        (c == Classification::Drop) == !spec_preserved(name@, value@, keep@, check@),
{
    if str_eq(name, "TERM") {
        Classification::Preserve
    } else if keep.matches_var(name, value) {
        Classification::Preserve
    } else if check.matches_var(name, value) {
        if has_function_marker(value) {
            Classification::Drop
        } else {
            Classification::Preserve
        }
    } else {
        Classification::Drop
    }
}

} // verus!
