//! Decimal rendering of unsigned integers, used for default workspace names
//! and for the wire codec. The characters of the result are pinned exactly by
//! `dec_chars`.

use vstd::prelude::*;
use vstd::utf8::{
    decode_utf8, encode_utf8, encode_utf8_decode_utf8, encode_utf8_valid_utf8, is_ascii_chars,
    is_ascii_chars_encode_utf8, valid_utf8,
};

verus! {

/// The decimal digit character for `d` (`d < 10`).
pub open spec fn dec_digit(d: nat) -> char {
    ((48 + d) as u8) as char
}

/// The decimal digits of `n`, most significant first, no leading zeros
/// (`0` reads `"0"`).
pub open spec fn dec_chars(n: nat) -> Seq<char>
    decreases n,
{
    if n < 10 {
        seq![dec_digit(n)]
    } else {
        dec_chars(n / 10).push(dec_digit(n % 10))
    }
}

/// The decimal digits of `n` as ASCII bytes, most significant first.
pub open spec fn dec_bytes(n: nat) -> Seq<u8>
    decreases n,
{
    if n < 10 {
        seq![(48 + n) as u8]
    } else {
        dec_bytes(n / 10).push((48 + n % 10) as u8)
    }
}

/// The decimal digit bytes of `n` read as characters are the decimal digit
/// characters of `n`, and all lie in `'0' ..= '9'`.
pub proof fn lemma_dec_bytes_chars(n: nat)
    ensures
        dec_chars(n) == dec_bytes(n).map(|i: int, b: u8| b as char),
        forall|i: int| 0 <= i < dec_bytes(n).len() ==> 48 <= #[trigger] dec_bytes(n)[i] <= 57,
        dec_bytes(n).len() >= 1,
    decreases n,
{
    if n < 10 {
        assert(dec_chars(n) =~= dec_bytes(n).map(|i: int, b: u8| b as char));
    } else {
        lemma_dec_bytes_chars(n / 10);
        assert(dec_chars(n) =~= dec_bytes(n).map(|i: int, b: u8| b as char));
    }
}

/// Pushes the decimal digit bytes of `n` onto `out`.
pub fn push_dec_bytes(out: &mut Vec<u8>, n: usize)
    ensures
        final(out)@ == old(out)@ + dec_bytes(n as nat),
{
    // Collect the digits least significant first, then append them reversed.
    let mut digits: Vec<u8> = Vec::new();
    let mut m: usize = n;
    proof {
        assert(dec_bytes(n as nat) =~= dec_bytes(n as nat) + digits@.reverse());
    }
    while m >= 10
        invariant
            dec_bytes(n as nat) == dec_bytes(m as nat) + digits@.reverse(),
        decreases m,
    {
        let ghost pre = digits@;
        let ghost m0 = m as nat;
        let b = (m % 10) as u8 + 48;
        digits.push(b);
        m = m / 10;
        proof {
            assert(dec_bytes(m0) == dec_bytes(m0 / 10).push((48 + m0 % 10) as u8));
            assert(digits@.reverse() =~= seq![b] + pre.reverse());
            assert(dec_bytes(m as nat) + digits@.reverse() =~= dec_bytes(m as nat).push(b)
                + pre.reverse());
        }
    }
    let ghost pre = digits@;
    let b = (m % 10) as u8 + 48;
    digits.push(b);
    proof {
        assert(digits@.reverse() =~= seq![b] + pre.reverse());
        assert(seq![b] =~= dec_bytes(m as nat));
        assert(digits@.reverse() =~= dec_bytes(n as nat));
    }
    let mut i: usize = digits.len();
    while i > 0
        invariant
            i <= digits@.len(),
            out@ == old(out)@ + digits@.reverse().take(digits@.len() - i),
        decreases i,
    {
        i = i - 1;
        let b = digits[i];
        out.push(b);
        proof {
            assert(out@ =~= old(out)@ + digits@.reverse().take(digits@.len() - i));
        }
    }
    proof {
        assert(digits@.reverse().take(digits@.len() as int) =~= digits@.reverse());
    }
}

/// Relies on `String::from_utf8`: succeeds exactly on valid UTF-8 input and
/// returns the string those bytes spell.
#[verifier::external_body]
pub(crate) fn string_from_utf8(bytes: Vec<u8>) -> (r: Option<String>)
    ensures
        match r {
            Some(s) => valid_utf8(bytes@) && s@ == decode_utf8(bytes@),
            None => !valid_utf8(bytes@),
        },
{
    String::from_utf8(bytes).ok()
}

/// A sequence of ASCII bytes is valid UTF-8 and decodes to the same characters.
pub proof fn lemma_ascii_bytes_decode(bytes: Seq<u8>)
    requires
        forall|i: int| 0 <= i < bytes.len() ==> #[trigger] bytes[i] < 128,
    ensures
        valid_utf8(bytes),
        decode_utf8(bytes) == bytes.map(|i: int, b: u8| b as char),
{
    let chars = bytes.map(|i: int, b: u8| b as char);
    assert(is_ascii_chars(chars));
    is_ascii_chars_encode_utf8(chars);
    assert(encode_utf8(chars) =~= bytes);
    encode_utf8_valid_utf8(chars);
    encode_utf8_decode_utf8(chars);
}

/// Renders `n` in decimal.
pub fn usize_to_string(n: usize) -> (s: String)
    ensures
        s@ == dec_chars(n as nat),
{
    let mut bytes: Vec<u8> = Vec::new();
    push_dec_bytes(&mut bytes, n);
    proof {
        lemma_dec_bytes_chars(n as nat);
        lemma_ascii_bytes_decode(bytes@);
    }
    match string_from_utf8(bytes) {
        Some(s) => s,
        None => {
            proof {
                assert(false);
            }
            String::new()
        },
    }
}

} // verus!
