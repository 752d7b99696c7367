//! Container names, checked against their grammar with the `regex` crate.

use vstd::prelude::*;
use crate::text::str_eq;

verus! {

/// The grammar of container names, anchored at both ends.
pub const NAME_PATTERN: &'static str = "^[-_.A-Za-z0-9]+$";

/// The value of the active-container variable when no container is active.
pub const NO_CON_ACTIVE: &'static str = "NO CON";

pub open spec fn is_name_char(c: char) -> bool {
    c == '-' || c == '_' || c == '.' || ('A' <= c && c <= 'Z') || ('a' <= c && c <= 'z') || (
    '0' <= c && c <= '9')
}

/// `s` is a non-empty run of letters, digits, `-`, `_` and `.`.
pub open spec fn name_grammar(s: Seq<char>) -> bool {
    s.len() > 0 && forall|i: int| 0 <= i < s.len() ==> is_name_char(s[i])
}

/// The sentinel that stands for "no container is active".
pub open spec fn sentinel() -> Seq<char> {
    NO_CON_ACTIVE@
}

/// A name that a new container may take.
pub open spec fn valid_con_name(s: Seq<char>) -> bool {
    name_grammar(s) && s != sentinel()
}

/// Relies on regex::Regex::new and regex::Regex::is_match: the anchored pattern
/// of container names compiles, and the regex matches exactly the texts that
/// are non-empty runs of its character class.
#[verifier::external_body]
fn regex_full_match(pattern: &str, s: &str) -> (r: bool)
    requires
        pattern@ == NAME_PATTERN@,
    ensures
        r == name_grammar(s@),
{
    regex::Regex::new(pattern).unwrap().is_match(s)
}

/// Whether `con` may name a new container: it follows the name grammar and is
/// not the sentinel.
pub fn is_valid_con_name(con: &str) -> (r: bool)
    ensures
        r == valid_con_name(con@),
{
    regex_full_match(NAME_PATTERN, con) && !str_eq(con, NO_CON_ACTIVE)
}

} // verus!
