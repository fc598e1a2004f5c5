//! The library's trusted boundary: thin wrappers around outside calls.
//!
//! Each function here is believed, not verified; its contract states no more
//! than the documentation of the function it wraps.

use vstd::prelude::*;

verus! {

/// What `str::to_lowercase` returns: a function of the characters alone.
pub uninterp spec fn lower_of(s: Seq<char>) -> Seq<char>;

/// A character the Unicode lowercase mapping leaves alone: any ASCII
/// character other than an uppercase letter.
pub open spec fn is_folded_char(c: char) -> bool {
    (c as u32) < 128 && !('A' <= c && c <= 'Z')
}

/// Relies on `std::string::String::push`: appends exactly one character.
#[verifier::external_body]
pub(crate) fn push_char(s: &mut String, c: char)
    ensures
        final(s)@ == old(s)@.push(c),
{
    s.push(c)
}

/// Relies on `str::to_lowercase`: the result depends on the characters
/// alone, mapped per Unicode. Of ASCII characters only `A`..=`Z` change
/// under that mapping, so a string of folded characters comes back as it
/// went in.
#[verifier::external_body]
pub(crate) fn to_lowercase(s: &str) -> (r: String)
    ensures
        r@ == lower_of(s@),
        (forall|i: int| 0 <= i < s@.len() ==> is_folded_char(#[trigger] s@[i])) ==> r@ == s@,
{
    s.to_lowercase()
}

/// Relies on `uuid::Uuid::new_v4`, a random 128-bit token; nothing is
/// promised of the value.
#[verifier::external_body]
pub(crate) fn fresh_token() -> u128 {
    uuid::Uuid::new_v4().as_u128()
}

/// Relies on `chrono::Utc::now`: the current wall-clock time in milliseconds
/// since the Unix epoch. The crate reports it as a signed 64-bit count, which
/// this wrapper clamps to zero from below; nothing more is promised of the
/// value.
#[verifier::external_body]
pub(crate) fn now_millis() -> (r: u64)
    ensures
        r <= 0x7fff_ffff_ffff_ffff,
{
    let ms = chrono::Utc::now().timestamp_millis();
    if ms < 0 {
        0
    } else {
        ms as u64
    }
}

} // verus!
