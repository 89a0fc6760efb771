//! Collection names double as filesystem path segments, so a name is valid
//! only when it consists solely of ASCII alphanumerics and underscores.
//! Anything else (in particular `/`, `.` and path traversal sequences) is
//! rejected before any registry or on-disk operation.

use vstd::prelude::*;

verus! {

/// A character allowed in a collection name.
pub open spec fn is_name_char(c: char) -> bool {
    ('a' <= c && c <= 'z') || ('A' <= c && c <= 'Z') || ('0' <= c && c <= '9') || c == '_'
}

/// A valid collection name: every character is an ASCII alphanumeric or an
/// underscore.  Only the character set is restricted; an empty name stays
/// within the data directory like any other.
pub open spec fn is_valid_name(s: Seq<char>) -> bool {
    forall|i: int| 0 <= i < s.len() ==> is_name_char(#[trigger] s[i])
}

fn name_char(c: char) -> (r: bool)
    ensures
        r == is_name_char(c),
{
    ('a' <= c && c <= 'z') || ('A' <= c && c <= 'Z') || ('0' <= c && c <= '9') || c == '_'
}

/// Checks that every character of `s` may stand in a collection name.
pub fn valid_name(s: &str) -> (r: bool)
    ensures
        r == is_valid_name(s@),
{
    let len: usize = s.unicode_len();
    let mut i: usize = 0;
    while i < len
        invariant
            i <= len,
            len == s@.len(),
            forall|j: int| 0 <= j < i ==> is_name_char(#[trigger] s@[j]),
        decreases len - i,
    {
        let c = s.get_char(i);
        if !name_char(c) {
            return false;
        }
        i = i + 1;
    }
    true
}

} // verus!
