//! Decimal digit sequences: the canonical wire form of non-negative integers.
//!
//! `dec_digits_of` is the canonical rendering (no sign, no leading zeros,
//! `"0"` for zero); `digits_value` reads a digit sequence back. The lemmas
//! here establish the exact round trip between the two.

use vstd::prelude::*;

verus! {

/// The character for one decimal digit (`d < 10`).
pub open spec fn digit_char(d: nat) -> char {
    if d == 0 {
        '0'
    } else if d == 1 {
        '1'
    } else if d == 2 {
        '2'
    } else if d == 3 {
        '3'
    } else if d == 4 {
        '4'
    } else if d == 5 {
        '5'
    } else if d == 6 {
        '6'
    } else if d == 7 {
        '7'
    } else if d == 8 {
        '8'
    } else {
        '9'
    }
}

/// Whether `c` is a decimal digit character.
pub open spec fn is_dec_digit(c: char) -> bool {
    c == '0' || c == '1' || c == '2' || c == '3' || c == '4' || c == '5' || c == '6' || c == '7'
        || c == '8' || c == '9'
}

/// The numeric value of a decimal digit character (`is_dec_digit(c)`).
pub open spec fn char_digit_val(c: char) -> nat {
    if c == '0' {
        0
    } else if c == '1' {
        1
    } else if c == '2' {
        2
    } else if c == '3' {
        3
    } else if c == '4' {
        4
    } else if c == '5' {
        5
    } else if c == '6' {
        6
    } else if c == '7' {
        7
    } else if c == '8' {
        8
    } else {
        9
    }
}

/// Canonical decimal rendering of `n`: most significant digit first,
/// no sign, no leading zeros, the single digit `"0"` for zero.
pub open spec fn dec_digits_of(n: nat) -> Seq<char>
    decreases n,
{
    if n < 10 {
        seq![digit_char(n)]
    } else {
        dec_digits_of(n / 10) + seq![digit_char(n % 10)]
    }
}

/// Whether every character of `s` is a decimal digit.
pub open spec fn all_dec_digits(s: Seq<char>) -> bool {
    forall|i: int| 0 <= i < s.len() ==> is_dec_digit(#[trigger] s[i])
}

/// The numeric value of a digit sequence (`all_dec_digits(s)`), with the
/// empty sequence reading as zero.
pub open spec fn digits_value(s: Seq<char>) -> nat
    decreases s.len(),
{
    if s.len() == 0 {
        0
    } else {
        digits_value(s.drop_last()) * 10 + char_digit_val(s.last())
    }
}

/// The canonical rendering is well formed: nonempty, digits only, and free
/// of leading zeros (a leading `'0'` occurs only as the whole rendering of
/// zero).
pub proof fn lemma_dec_digits_wf(n: nat)
    ensures
        dec_digits_of(n).len() >= 1,
        all_dec_digits(dec_digits_of(n)),
        dec_digits_of(n)[0] == '0' <==> n == 0,
        n == 0 ==> dec_digits_of(n) == seq!['0'],
    decreases n,
{
    if n < 10 {
        assert(dec_digits_of(n) =~= seq![digit_char(n)]);
    } else {
        lemma_dec_digits_wf(n / 10);
        let a = dec_digits_of(n / 10);
        let w = a + seq![digit_char(n % 10)];
        assert(dec_digits_of(n) == w);
        assert forall|i: int| 0 <= i < w.len() implies is_dec_digit(#[trigger] w[i]) by {
            if i < a.len() {
                assert(w[i] == a[i]);
            } else {
                assert(w[i] == digit_char(n % 10));
            }
        }
        assert(w[0] == a[0]);
        assert(n / 10 != 0);
    }
}

/// Rendering then reading back is the identity: `digits_value` inverts
/// `dec_digits_of` exactly, for every natural number.
pub proof fn lemma_dec_digits_value(n: nat)
    ensures
        digits_value(dec_digits_of(n)) == n,
    decreases n,
{
    if n < 10 {
        let s = seq![digit_char(n)];
        assert(s.drop_last() =~= Seq::<char>::empty());
        assert(digits_value(Seq::<char>::empty()) == 0);
        assert(s.last() == digit_char(n));
        assert(digits_value(s) == digits_value(s.drop_last()) * 10 + char_digit_val(s.last()));
        assert(digits_value(s) == char_digit_val(digit_char(n)));
    } else {
        lemma_dec_digits_value(n / 10);
        let a = dec_digits_of(n / 10);
        let w = a + seq![digit_char(n % 10)];
        assert(w.drop_last() =~= a);
        assert(w.last() == digit_char(n % 10));
        assert(digits_value(w) == digits_value(a) * 10 + char_digit_val(digit_char(n % 10)));
        assert(char_digit_val(digit_char(n % 10)) == n % 10);
        assert((n / 10) * 10 + n % 10 == n);
    }
}

/// The lowercase hexadecimal digit character for `d` (`d < 16`).
pub open spec fn hex_digit_char(d: nat) -> char {
    if d < 10 {
        digit_char(d)
    } else if d == 10 {
        'a'
    } else if d == 11 {
        'b'
    } else if d == 12 {
        'c'
    } else if d == 13 {
        'd'
    } else if d == 14 {
        'e'
    } else {
        'f'
    }
}

/// Whether `c` is a lowercase hexadecimal digit character.
pub open spec fn is_hex_digit(c: char) -> bool {
    is_dec_digit(c) || c == 'a' || c == 'b' || c == 'c' || c == 'd' || c == 'e' || c == 'f'
}

/// The character for decimal digit `d`.
pub fn digit_char_ex(d: u64) -> (c: char)
    requires
        d < 10,
    ensures
        c == digit_char(d as nat),
{
    match d {
        0 => '0',
        1 => '1',
        2 => '2',
        3 => '3',
        4 => '4',
        5 => '5',
        6 => '6',
        7 => '7',
        8 => '8',
        _ => '9',
    }
}

/// The lowercase character for hexadecimal digit `d`.
pub fn hex_digit_char_ex(d: u32) -> (c: char)
    requires
        d < 16,
    ensures
        c == hex_digit_char(d as nat),
{
    match d {
        0 => '0',
        1 => '1',
        2 => '2',
        3 => '3',
        4 => '4',
        5 => '5',
        6 => '6',
        7 => '7',
        8 => '8',
        9 => '9',
        10 => 'a',
        11 => 'b',
        12 => 'c',
        13 => 'd',
        14 => 'e',
        _ => 'f',
    }
}

} // verus!
