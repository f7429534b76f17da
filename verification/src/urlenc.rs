//! Percent-encoding of query text and percent-decoding of magnet links.
//!
//! The executable encoding and decoding are calls into the `urlencoding`
//! crate through two trusted wrappers; the spec functions here state
//! exactly what that crate computes, byte by byte, and the lemmas prove
//! that encoding introduces no space and that decoding inverts it.

use vstd::prelude::*;
use vstd::utf8::decode_utf8;
use vstd::utf8::encode_utf8;
use vstd::utf8::valid_utf8;

verus! {

/// True for the bytes that percent-encoding leaves as they are:
/// ASCII alphanumerics and `-`, `.`, `_`, `~`.
pub open spec fn is_url_safe(b: u8) -> bool {
    ||| 48 <= b <= 57  // '0' to '9'
    ||| 65 <= b <= 90  // 'A' to 'Z'
    ||| 97 <= b <= 122  // 'a' to 'z'
    ||| b == 45  // '-'
    ||| b == 46  // '.'
    ||| b == 95  // '_'
    ||| b == 126  // '~'

}

/// The uppercase hex digit for a value below 16, as an ASCII byte.
pub open spec fn hex_digit_byte(x: u8) -> u8
    recommends
        x < 16,
{
    if x < 10 {
        (48 + x) as u8
    } else {
        (55 + x) as u8
    }
}

/// True for ASCII hex digits, upper or lower case.
pub open spec fn is_hex_byte(b: u8) -> bool {
    ||| 48 <= b <= 57
    ||| 65 <= b <= 70
    ||| 97 <= b <= 102
}

/// The value of an ASCII hex digit.
pub open spec fn hex_val(b: u8) -> u8
    recommends
        is_hex_byte(b),
{
    if 48 <= b <= 57 {
        (b - 48) as u8
    } else if 65 <= b <= 70 {
        (b - 55) as u8
    } else {
        (b - 87) as u8
    }
}

/// The percent-encoded form of a byte sequence: safe bytes stay, every
/// other byte becomes `%` (byte 37) and two uppercase hex digits.
pub open spec fn pe_bytes(bs: Seq<u8>) -> Seq<u8>
    decreases bs.len(),
{
    if bs.len() == 0 {
        Seq::empty()
    } else {
        (if is_url_safe(bs[0]) {
            seq![bs[0]]
        } else {
            seq![37u8, hex_digit_byte(bs[0] / 16), hex_digit_byte(bs[0] % 16)]
        }) + pe_bytes(bs.drop_first())
    }
}

/// The percent-decoded form of a byte sequence: `%` followed by two hex
/// digits becomes one byte; a malformed `%` sequence passes through the
/// way `urlencoding`'s decoder leaves it.
pub open spec fn pd_bytes(bs: Seq<u8>) -> Seq<u8>
    decreases bs.len(),
{
    if bs.len() == 0 {
        Seq::empty()
    } else if bs[0] == 37 {
        if bs.len() >= 3 && is_hex_byte(bs[1]) && is_hex_byte(bs[2]) {
            seq![(hex_val(bs[1]) * 16 + hex_val(bs[2])) as u8] + pd_bytes(bs.skip(3))
        } else if bs.len() >= 3 && !is_hex_byte(bs[1]) {
            seq![37u8] + pd_bytes(bs.skip(1))
        } else if bs.len() >= 3 {
            seq![37u8, bs[1]] + pd_bytes(bs.skip(2))
        } else {
            bs
        }
    } else {
        seq![bs[0]] + pd_bytes(bs.skip(1))
    }
}

/// The characters of an ASCII byte sequence.
pub open spec fn ascii_chars_of(bs: Seq<u8>) -> Seq<char> {
    bs.map_values(|b: u8| b as char)
}

/// What `urlencoding::encode` returns for the text `s`.
pub open spec fn url_encoded(s: Seq<char>) -> Seq<char> {
    ascii_chars_of(pe_bytes(encode_utf8(s)))
}

/// What `urlencoding::decode` returns for the text `s`: the decoded text,
/// or nothing when the decoded bytes are not valid UTF-8.
pub open spec fn url_decoded(s: Seq<char>) -> Option<Seq<char>> {
    if valid_utf8(pd_bytes(encode_utf8(s))) {
        Some(decode_utf8(pd_bytes(encode_utf8(s))))
    } else {
        None
    }
}

/// Relies on `urlencoding::encode`: every byte of the UTF-8 form of `s`
/// except ASCII alphanumerics and `-`, `.`, `_`, `~` becomes `%` and two
/// uppercase hex digits.
#[verifier::external_body]
pub fn url_encode(s: &str) -> (r: String)
    ensures
        r@ == url_encoded(s@),
{
    urlencoding::encode(s).into_owned()
}

/// Relies on `urlencoding::decode`: `%` plus two hex digits becomes one
/// byte, malformed `%` sequences pass through unchanged, and the call
/// fails exactly when the decoded bytes are not valid UTF-8.
#[verifier::external_body]
pub fn url_decode(s: &str) -> (r: Option<String>)
    ensures
        match r {
            Some(t) => url_decoded(s@) == Some(t@),
            None => url_decoded(s@) is None,
        },
{
    match urlencoding::decode(s) {
        Ok(t) => Some(t.into_owned()),
        Err(_) => None,
    }
}

/// Every byte that percent-encoding emits is ASCII and is not a space.
proof fn lemma_pe_bytes_ascii(bs: Seq<u8>)
    ensures
        forall|i: int|
            0 <= i < pe_bytes(bs).len() ==> (#[trigger] pe_bytes(bs)[i]) < 128 && pe_bytes(bs)[i]
                != 32,
    decreases bs.len(),
{
    if bs.len() > 0 {
        lemma_pe_bytes_ascii(bs.drop_first());
        let head = if is_url_safe(bs[0]) {
            seq![bs[0]]
        } else {
            seq![37u8, hex_digit_byte(bs[0] / 16), hex_digit_byte(bs[0] % 16)]
        };
        assert forall|i: int| 0 <= i < pe_bytes(bs).len() implies (#[trigger] pe_bytes(bs)[i])
            < 128 && pe_bytes(bs)[i] != 32 by {
            if i < head.len() {
                assert(pe_bytes(bs)[i] == head[i]);
            } else {
                assert(pe_bytes(bs)[i] == pe_bytes(bs.drop_first())[i - head.len()]);
            }
        }
    }
}

/// Percent-decoding inverts percent-encoding, byte for byte.
proof fn lemma_pd_pe_bytes(bs: Seq<u8>)
    ensures
        pd_bytes(pe_bytes(bs)) == bs,
    decreases bs.len(),
{
    if bs.len() == 0 {
        assert(pd_bytes(pe_bytes(bs)) =~= bs);
    } else {
        lemma_pd_pe_bytes(bs.drop_first());
        let b = bs[0];
        let rest = pe_bytes(bs.drop_first());
        if is_url_safe(b) {
            let whole = seq![b] + rest;
            assert(pe_bytes(bs) == whole);
            assert(whole[0] == b && b != 37);
            assert(whole.skip(1) =~= rest);
            assert(pd_bytes(whole) == seq![b] + pd_bytes(rest));
            assert(pd_bytes(pe_bytes(bs)) =~= bs);
        } else {
            let h1 = hex_digit_byte(b / 16);
            let h2 = hex_digit_byte(b % 16);
            let whole = seq![37u8, h1, h2] + rest;
            assert(pe_bytes(bs) == whole);
            assert(whole[0] == 37 && whole[1] == h1 && whole[2] == h2);
            assert(is_hex_byte(h1) && is_hex_byte(h2));
            assert(hex_val(h1) == b / 16 && hex_val(h2) == b % 16);
            vstd::arithmetic::div_mod::lemma_fundamental_div_mod(b as int, 16);
            assert(hex_val(h1) * 16 + hex_val(h2) == b);
            assert(whole.skip(3) =~= rest);
            assert(pd_bytes(whole) == seq![b] + pd_bytes(rest));
            assert(pd_bytes(pe_bytes(bs)) =~= bs);
        }
    }
}

/// The UTF-8 bytes of the characters of an ASCII byte sequence are that
/// sequence itself.
proof fn lemma_encode_ascii_chars(bs: Seq<u8>)
    requires
        forall|i: int| 0 <= i < bs.len() ==> (#[trigger] bs[i]) < 128,
    ensures
        encode_utf8(ascii_chars_of(bs)) == bs,
{
    let cs = ascii_chars_of(bs);
    assert(cs.len() == bs.len());
    assert forall|i: int| 0 <= i < cs.len() implies '\0' <= #[trigger] cs[i] <= '\u{7f}' by {
        assert(cs[i] == bs[i] as char);
    }
    assert(vstd::utf8::is_ascii_chars(cs));
    vstd::utf8::is_ascii_chars_encode_utf8(cs);
    assert forall|i: int| 0 <= i < bs.len() implies encode_utf8(cs)[i] == bs[i] by {
        assert(cs[i] == bs[i] as char);
        assert(cs[i] as u8 == encode_utf8(cs)[i]);
    }
    assert(encode_utf8(cs) =~= bs);
}

/// Percent-encoded text never contains a space.
pub proof fn lemma_url_encoded_no_space(s: Seq<char>)
    ensures
        forall|i: int| 0 <= i < url_encoded(s).len() ==> (#[trigger] url_encoded(s)[i]) != ' ',
{
    let pb = pe_bytes(encode_utf8(s));
    lemma_pe_bytes_ascii(encode_utf8(s));
    assert forall|i: int| 0 <= i < url_encoded(s).len() implies (#[trigger] url_encoded(s)[i])
        != ' ' by {
        assert(url_encoded(s)[i] == pb[i] as char);
        assert(pb[i] != 32);
    }
}

/// Decoding percent-encoded text gives back the text that was encoded.
pub proof fn lemma_url_encode_round_trip(s: Seq<char>)
    ensures
        url_decoded(url_encoded(s)) == Some(s),
{
    let ub = encode_utf8(s);
    let pb = pe_bytes(ub);
    lemma_pe_bytes_ascii(ub);
    lemma_encode_ascii_chars(pb);
    assert(encode_utf8(url_encoded(s)) == pb);
    lemma_pd_pe_bytes(ub);
    assert(pd_bytes(pb) == ub);
    broadcast use vstd::utf8::encode_utf8_valid_utf8, vstd::utf8::encode_utf8_decode_utf8;

    assert(valid_utf8(ub));
    assert(decode_utf8(ub) == s);
}

} // verus!
