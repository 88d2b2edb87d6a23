//! Decoding payload bytes as text, and rendering numbers to text.
use vstd::prelude::*;

use vstd::utf8::{
    decode_utf8, encode_utf8, encode_utf8_decode_utf8, encode_utf8_valid_utf8, is_ascii_chars,
    is_ascii_chars_encode_utf8, valid_utf8,
};

verus! {

/// Relies on String::from_utf8: it succeeds exactly on valid UTF-8 input
/// and then returns the string made of those bytes, so the decoded
/// characters are vstd's `decode_utf8` of the input.
#[verifier::external_body]
pub(crate) fn bytes_to_text(bytes: &Vec<u8>) -> (r: Option<String>)
    ensures
        match r {
            Some(s) => valid_utf8(bytes@) && s@ == decode_utf8(bytes@),
            None => !valid_utf8(bytes@),
        },
{
    String::from_utf8(bytes.clone()).ok()
}

/// The ASCII digit character of `d`.
pub open spec fn spec_digit(d: int) -> char
    recommends
        0 <= d < 10,
{
    ((48 + d) as u8) as char
}

/// The decimal rendering of `n`, most significant digit first.
pub open spec fn spec_decimal(n: int) -> Seq<char>
    recommends
        n >= 0,
    decreases n,
{
    if n < 10 {
        seq![spec_digit(n)]
    } else {
        spec_decimal(n / 10) + seq![spec_digit(n % 10)]
    }
}

/// The characters of a digit-byte sequence read back to front.
spec fn rev_digit_chars(bs: Seq<u8>) -> Seq<char> {
    Seq::new(bs.len(), |i: int| bs[bs.len() - 1 - i] as char)
}

/// Renders `x` in decimal.
pub fn u32_to_text(x: u32) -> (r: String)
    ensures
        r@ == spec_decimal(x as int),
{
    let mut digits_rev: Vec<u8> = Vec::new();
    let mut v = x;
    proof {
        assert(rev_digit_chars(digits_rev@) =~= Seq::<char>::empty());
        assert(spec_decimal(x as int) == spec_decimal(v as int) + rev_digit_chars(digits_rev@));
    }
    loop
        invariant_except_break
            spec_decimal(x as int) == spec_decimal(v as int) + rev_digit_chars(digits_rev@),
            forall|i: int| 0 <= i < digits_rev@.len() ==> 48 <= #[trigger] digits_rev@[i] <= 57,
        ensures
            spec_decimal(x as int) == rev_digit_chars(digits_rev@),
            forall|i: int| 0 <= i < digits_rev@.len() ==> 48 <= #[trigger] digits_rev@[i] <= 57,
        decreases v,
    {
        let d: u8 = (v % 10) as u8 + 48;
        let ghost prev = digits_rev@;
        digits_rev.push(d);
        proof {
            assert(d as char == spec_digit(v as int % 10));
            assert(rev_digit_chars(digits_rev@) =~= seq![spec_digit(v as int % 10)]
                + rev_digit_chars(prev));
        }
        if v < 10 {
            proof {
                assert(v as int % 10 == v as int);
                assert(spec_decimal(v as int) == seq![spec_digit(v as int)]);
                assert(spec_decimal(v as int) + rev_digit_chars(prev) =~= seq![
                    spec_digit(v as int),
                ] + rev_digit_chars(prev));
            }
            break ;
        }
        proof {
            assert(spec_decimal(v as int) == spec_decimal(v as int / 10) + seq![
                spec_digit(v as int % 10),
            ]);
            assert((spec_decimal(v as int / 10) + seq![spec_digit(v as int % 10)])
                + rev_digit_chars(prev) =~= spec_decimal(v as int / 10) + (seq![
                spec_digit(v as int % 10),
            ] + rev_digit_chars(prev)));
        }
        v = v / 10;
    }
    let n = digits_rev.len();
    let mut bytes: Vec<u8> = Vec::new();
    let mut i: usize = 0;
    while i < n
        invariant
            i <= n,
            n == digits_rev@.len(),
            bytes@.len() == i,
            forall|j: int| 0 <= j < i ==> #[trigger] bytes@[j] == digits_rev@[n - 1 - j],
            spec_decimal(x as int) == rev_digit_chars(digits_rev@),
            forall|k: int| 0 <= k < digits_rev@.len() ==> 48 <= #[trigger] digits_rev@[k] <= 57,
        decreases n - i,
    {
        bytes.push(*vstd::slice::slice_index_get(digits_rev.as_slice(), n - 1 - i));
        i = i + 1;
    }
    proof {
        let cs = spec_decimal(x as int);
        assert(cs =~= Seq::new(bytes@.len() as nat, |j: int| bytes@[j] as char));
        assert(is_ascii_chars(cs));
        is_ascii_chars_encode_utf8(cs);
        assert(encode_utf8(cs) =~= bytes@);
        encode_utf8_valid_utf8(cs);
        encode_utf8_decode_utf8(cs);
    }
    match bytes_to_text(&bytes) {
        Some(s) => s,
        None => vstd::pervasive::unreached(),
    }
}

} // verus!
