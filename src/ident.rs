use vstd::prelude::*;

verus! {

/// Number of characters in every short identifier.
pub const ID_LEN: usize = 6;

/// The URL-safe alphabet: ASCII letters, digits, `_` and `-`.
pub open spec fn is_url_safe_char(c: char) -> bool {
    ('a' <= c && c <= 'z') || ('A' <= c && c <= 'Z') || ('0' <= c && c <= '9') || c == '_' || c
        == '-'
}

/// A well-formed identifier: exactly `ID_LEN` characters, all URL-safe.
pub open spec fn is_identifier(s: Seq<char>) -> bool {
    &&& s.len() == ID_LEN
    &&& forall|i: int| 0 <= i < s.len() ==> #[trigger] is_url_safe_char(s[i])
}

/// Relies on nanoid::format with nanoid::rngs::default and nanoid::alphabet::SAFE:
/// it pushes characters of the alphabet until the string holds `size` of them.
/// A size of zero would never return.
#[verifier::external_body]
fn nanoid_safe(size: usize) -> (r: String)
    requires
        size > 0,
    ensures
        r@.len() == size,
        forall|i: int| 0 <= i < r@.len() ==> #[trigger] is_url_safe_char(r@[i]),
{
    nanoid::format(nanoid::rngs::default, &nanoid::alphabet::SAFE, size)
}

/// Draws a fresh random identifier. Nothing is remembered between calls:
/// uniqueness is the store's concern.
pub fn new_identifier() -> (r: String)
    ensures
        is_identifier(r@),
{
    nanoid_safe(ID_LEN)
}

} // verus!
