//! Document identifiers: the shape of their textual form, and fresh ones.

use vstd::prelude::*;

verus! {

/// Number of characters in the textual form of a document identifier.
pub const OBJECT_ID_LEN: usize = 24;

pub open spec fn is_hex_digit(c: char) -> bool {
    ('0' <= c && c <= '9') || ('a' <= c && c <= 'f') || ('A' <= c && c <= 'F')
}

/// A well-formed identifier: exactly 24 hexadecimal digits.
pub open spec fn is_object_id(s: Seq<char>) -> bool {
    &&& s.len() == OBJECT_ID_LEN
    &&& forall|i: int| 0 <= i < s.len() ==> is_hex_digit(#[trigger] s[i])
}

pub fn hex_digit(c: char) -> (r: bool)
    ensures
        r == is_hex_digit(c),
{
    ('0' <= c && c <= '9') || ('a' <= c && c <= 'f') || ('A' <= c && c <= 'F')
}

/// Whether `s` has the shape of a document identifier.
pub fn is_valid_object_id(s: &str) -> (r: bool)
    ensures
        r == is_object_id(s@),
{
    let n = s.unicode_len();
    if n != OBJECT_ID_LEN {
        return false;
    }
    let mut i: usize = 0;
    while i < n
        invariant
            n == s@.len(),
            0 <= i <= n,
            forall|j: int| 0 <= j < i ==> is_hex_digit(#[trigger] s@[j]),
        decreases n - i,
    {
        if !hex_digit(s.get_char(i)) {
            return false;
        }
        i += 1;
    }
    true
}

/// Relies on bson's `ObjectId::new` and `ObjectId::to_hex`: a newly generated
/// identifier, written as its twelve bytes in hexadecimal.
#[verifier::external_body]
pub(crate) fn fresh_object_id() -> (r: String)
    ensures
        is_object_id(r@),
{
    bson::oid::ObjectId::new().to_hex()
}

} // verus!
