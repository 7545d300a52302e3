use vstd::prelude::*;

verus! {

use crate::anonymizer::hex_digit;
use crate::anonymizer::hex_char_str;
use vstd::string::StringExecFns;

/// The decimal rendering of `n`, most significant digit first, no leading
/// zeroes. Decimal digits coincide with the first ten hexadecimal ones.
pub open spec fn dec_str(n: int) -> Seq<char>
    decreases n,
{
    if n < 10 {
        seq![hex_digit(if 0 <= n { n as u8 } else { 0 })]
    } else {
        dec_str(n / 10).push(hex_digit((n % 10) as u8))
    }
}

/// The decimal rendering of `n` padded with a leading zero to at least two
/// digits.
pub open spec fn dec2_str(n: int) -> Seq<char> {
    if n < 10 {
        seq!['0'] + dec_str(n)
    } else {
        dec_str(n)
    }
}

/// Appends the decimal rendering of `n` to `s`.
pub fn push_dec_u32(s: &mut String, n: u32)
    ensures
        final(s)@ == old(s)@ + dec_str(n as int),
    decreases n,
{
    if n < 10 {
        s.append(hex_char_str((n % 16) as u8));
        assert(s@ =~= old(s)@ + dec_str(n as int));
    } else {
        push_dec_u32(s, n / 10);
        s.append(hex_char_str((n % 10) as u8));
        assert(s@ =~= old(s)@ + dec_str(n as int));
    }
}

/// Appends the decimal rendering of `n`, zero-padded to two digits.
pub fn push_dec2_u32(s: &mut String, n: u32)
    ensures
        final(s)@ == old(s)@ + dec2_str(n as int),
{
    if n < 10 {
        proof {
            reveal_strlit("0");
        }
        s.append("0");
    }
    push_dec_u32(s, n);
    assert(s@ =~= old(s)@ + dec2_str(n as int));
}

/// The decimal rendering of `n` as a fresh string.
pub fn u32_to_dec_string(n: u32) -> (r: String)
    ensures
        r@ == dec_str(n as int),
{
    let mut s = String::new();
    push_dec_u32(&mut s, n);
    assert(s@ =~= dec_str(n as int));
    s
}

} // verus!
