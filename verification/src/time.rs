//! The timestamp codec.
//!
//! An absolute instant is a nanosecond count since the Unix epoch, held as
//! `u64`. On the wire it may arrive either as a bare JSON number token or
//! as a JSON string (`TimeWire`); both are accepted exactly when the token
//! is a plain run of decimal digits whose value fits 64 bits. Output is
//! always canonical: the quoted decimal-digit string (see
//! `crate::json::time_jv` and `encode_nanos`), never a bare number, which
//! sidesteps precision loss in decoders that read large JSON numbers as
//! floating point.

use vstd::prelude::*;
use vstd::string::StrSliceExecFns;

use crate::digits::all_dec_digits;
use crate::digits::char_digit_val;
use crate::digits::dec_digits_of;
use crate::digits::digits_value;
use crate::digits::is_dec_digit;
use crate::digits::lemma_dec_digits_value;
use crate::digits::lemma_dec_digits_wf;

verus! {

/// A timestamp as it may arrive on the wire: the nanosecond count as a
/// bare JSON number token, or inside a JSON string.
pub enum TimeWire {
    Number(String),
    Text(String),
}

/// Why a decode failed: the token is not a plain run of decimal digits,
/// or its value does not fit the 64-bit nanosecond representation.
#[derive(PartialEq, Eq, Structural, Clone, Copy, Debug)]
pub enum TimeError {
    Malformed,
    OutOfRange,
}

/// The digit token carried by either wire form.
pub open spec fn wire_token(w: TimeWire) -> Seq<char> {
    match w {
        TimeWire::Number(s) => s@,
        TimeWire::Text(s) => s@,
    }
}

/// Whether a wire token is a plain decimal integer: nonempty, digits only
/// (no sign, no fraction, no exponent).
pub open spec fn token_is_integral(t: Seq<char>) -> bool {
    t.len() > 0 && all_dec_digits(t)
}

/// The numeric value of one decimal digit character, or `None` for any
/// other character.
fn dec_digit_val_ex(c: char) -> (r: Option<u64>)
    ensures
        r is Some <==> is_dec_digit(c),
        r is Some ==> r->0 == char_digit_val(c),
{
    if c == '0' {
        Option::Some(0)
    } else if c == '1' {
        Option::Some(1)
    } else if c == '2' {
        Option::Some(2)
    } else if c == '3' {
        Option::Some(3)
    } else if c == '4' {
        Option::Some(4)
    } else if c == '5' {
        Option::Some(5)
    } else if c == '6' {
        Option::Some(6)
    } else if c == '7' {
        Option::Some(7)
    } else if c == '8' {
        Option::Some(8)
    } else if c == '9' {
        Option::Some(9)
    } else {
        Option::None
    }
}

/// Reads a `u64` from a decimal-digit token. Succeeds exactly on a
/// nonempty all-digit token whose value fits; a non-digit (sign, dot,
/// exponent, anything else) is malformed wherever it stands, and an
/// all-digit token too large for 64 bits is out of range.
fn parse_dec_u64(s: &str) -> (r: Result<u64, TimeError>)
    ensures
        r is Ok <==> token_is_integral(s@) && digits_value(s@) <= u64::MAX,
        r is Ok ==> r->Ok_0 as nat == digits_value(s@),
        !token_is_integral(s@) ==> r == Result::<u64, TimeError>::Err(TimeError::Malformed),
        token_is_integral(s@) && digits_value(s@) > u64::MAX ==> r == Result::<
            u64,
            TimeError,
        >::Err(TimeError::OutOfRange),
{
    let n = s.unicode_len();
    if n == 0 {
        return Result::Err(TimeError::Malformed);
    }
    let mut acc: u64 = 0;
    let mut over: bool = false;
    let mut i: usize = 0;
    while i < n
        invariant
            n as nat == s@.len(),
            i <= n,
            all_dec_digits(s@.subrange(0, i as int)),
            !over ==> acc as nat == digits_value(s@.subrange(0, i as int)),
            over ==> digits_value(s@.subrange(0, i as int)) > u64::MAX,
        decreases n - i,
    {
        let c = s.get_char(i);
        let ghost pre = s@.subrange(0, i as int);
        let ghost ext = s@.subrange(0, i as int + 1);
        proof {
            assert(ext.drop_last() =~= pre);
            assert(ext.last() == c);
        }
        match dec_digit_val_ex(c) {
            Option::Some(d) => {
                proof {
                    assert forall|k: int| 0 <= k < ext.len() implies is_dec_digit(
                        #[trigger] ext[k],
                    ) by {
                        if k < pre.len() {
                            assert(ext[k] == pre[k]);
                        }
                    }
                }
                if over {
                    proof {
                        assert(digits_value(ext) == digits_value(pre) * 10 + char_digit_val(c));
                        assert(digits_value(pre) * 10 > u64::MAX);
                    }
                } else if acc > u64::MAX / 10 || (acc == u64::MAX / 10 && d > u64::MAX % 10) {
                    over = true;
                    proof {
                        assert(digits_value(ext) == (acc as nat) * 10 + char_digit_val(c));
                        assert(digits_value(ext) > u64::MAX);
                    }
                } else {
                    acc = acc * 10 + d;
                    proof {
                        assert(acc as nat == digits_value(ext));
                    }
                }
            },
            Option::None => {
                proof {
                    assert(s@[i as int] == c);
                    assert(!all_dec_digits(s@));
                }
                return Result::Err(TimeError::Malformed);
            },
        }
        i = i + 1;
    }
    proof {
        assert(s@.subrange(0, n as int) =~= s@);
    }
    if over {
        Result::Err(TimeError::OutOfRange)
    } else {
        Result::Ok(acc)
    }
}

/// Decodes the nanosecond count from either wire form. A bare number and a
/// string carrying the same digit token decode to the identical instant;
/// any token with a sign, fraction or other non-digit fails as malformed,
/// and an all-digit token beyond 64 bits fails as out of range.
pub fn decode_nanos(w: &TimeWire) -> (r: Result<u64, TimeError>)
    ensures
        r is Ok <==> token_is_integral(wire_token(*w)) && digits_value(wire_token(*w)) <= u64::MAX,
        r is Ok ==> r->Ok_0 as nat == digits_value(wire_token(*w)),
        !token_is_integral(wire_token(*w)) ==> r == Result::<u64, TimeError>::Err(
            TimeError::Malformed,
        ),
        token_is_integral(wire_token(*w)) && digits_value(wire_token(*w)) > u64::MAX ==> r
            == Result::<u64, TimeError>::Err(TimeError::OutOfRange),
{
    match w {
        TimeWire::Number(s) => parse_dec_u64(s.as_str()),
        TimeWire::Text(s) => parse_dec_u64(s.as_str()),
    }
}

/// Encodes a nanosecond count in its canonical wire form: the decimal
/// digits, no sign, no leading zeros, `"0"` for zero. (On the wire the
/// serializer always quotes this token; see `crate::json::time_jv`.)
pub fn encode_nanos(nanos: u64) -> (r: String)
    ensures
        r@ == dec_digits_of(nanos as nat),
{
    let mut out = String::new();
    crate::emit::write_digits(&mut out, nanos);
    proof {
        assert(out@ =~= dec_digits_of(nanos as nat));
    }
    out
}

/// Round trip: for every representable nanosecond instant, the canonical
/// encoding is an integral token that decodes back to exactly the same
/// instant, with no precision loss. Together with the codec contracts this
/// gives `decode_nanos` of either wire form of `encode_nanos(t)` equal to
/// `Ok(t)`.
pub proof fn lemma_nanos_round_trip(nanos: u64)
    ensures
        token_is_integral(dec_digits_of(nanos as nat)),
        digits_value(dec_digits_of(nanos as nat)) == nanos as nat,
{
    lemma_dec_digits_wf(nanos as nat);
    lemma_dec_digits_value(nanos as nat);
}

} // verus!
