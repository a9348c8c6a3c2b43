//! Identifiers that no other call and no other node will hand out.
//!
//! An identifier is the text of a ULID: 128 bits, of which the upper 48 are
//! the time of its making in milliseconds and the lower 80 are drawn at
//! random, written as 26 characters of Crockford's base 32.

use vstd::prelude::*;

verus! {

/// The characters of Crockford's base 32: the digits and the capital
/// letters without I, L, O and U.
pub open spec fn is_base32_char(c: char) -> bool {
    ('0' <= c && c <= '9') || ('A' <= c && c <= 'Z' && c != 'I' && c != 'L' && c != 'O' && c != 'U')
}

/// The texts that a ULID can have: 26 characters of Crockford's base 32, the
/// first of them at most `7` because 128 bits leave it three.
pub open spec fn is_ulid_text(text: Seq<char>) -> bool {
    &&& text.len() == 26
    &&& forall|i: int| 0 <= i < 26 ==> is_base32_char(#[trigger] text[i])
    &&& '0' <= text[0] && text[0] <= '7'
}

/// Makes a new ULID by `ulid::Ulid::new`, which reads the system clock and
/// the thread's random number generator, and returns its text as
/// `ulid::Ulid::to_string` gives it.
///
/// Trusted, not proved: that the text has the form of a ULID. Nothing is
/// claimed of which ULID it is, so to the verifier two calls may return the
/// same text. The call takes no argument; it panics only where the operating
/// system gives the generator no seed.
#[verifier::external_body]
pub(crate) fn fresh_ulid_text() -> (text: String)
    ensures
        is_ulid_text(text@),
{
    ulid::Ulid::new().to_string()
}

} // verus!
