//! Span and trace identifier generation.
//!
//! Identifiers are opaque lowercase hexadecimal strings. Uniqueness within
//! one process run is the only requirement (not unpredictability), so any
//! source of randomness serves; with at least eight characters (32 bits of
//! entropy) a collision between two identifiers of one export is
//! negligible.

use vstd::prelude::*;

use crate::digits::hex_digit_char_ex;
use crate::digits::is_hex_digit;
use crate::emit::push_char;

verus! {

/// Relies on rand's `Rng::gen_range` over `0..bound` with the thread-local
/// generator: for a nonempty range it returns a value inside the range (it
/// panics only on an empty one), so nothing more than the bound is known
/// of any one draw.
#[verifier::external_body]
fn random_below(bound: usize) -> (r: usize)
    requires
        bound > 0,
    ensures
        r < bound,
{
    rand::Rng::gen_range(&mut rand::thread_rng(), 0..bound)
}

/// Whether every character of `s` is a lowercase hexadecimal digit.
pub open spec fn all_hex_digits(s: Seq<char>) -> bool {
    forall|i: int| 0 <= i < s.len() ==> is_hex_digit(#[trigger] s[i])
}

/// A fresh identifier of `len` random lowercase hex characters.
pub fn generate_hex(len: usize) -> (r: String)
    ensures
        r@.len() == len,
        all_hex_digits(r@),
{
    let mut out = String::new();
    let mut i: usize = 0;
    while i < len
        invariant
            i <= len,
            out@.len() == i,
            all_hex_digits(out@),
        decreases len - i,
    {
        let d = random_below(16);
        let c = hex_digit_char_ex(d as u32);
        let ghost prev = out@;
        push_char(&mut out, c);
        proof {
            assert(is_hex_digit(c));
            assert forall|k: int| 0 <= k < out@.len() implies is_hex_digit(#[trigger] out@[k]) by {
                if k < prev.len() {
                    assert(out@[k] == prev[k]);
                } else {
                    assert(out@[k] == c);
                }
            }
        }
        i = i + 1;
    }
    out
}

} // verus!
