//! Hex and base64 text encodings of bytes, done by the `hex` and `base64`
//! crates.
use vstd::prelude::*;
use vstd::string::*;
use base64::Engine;

verus! {

/// The lower-case hex digit of `n < 16`.
pub open spec fn hex_digit(n: u8) -> char {
    if n < 10 {
        ('0' as u8 + n) as char
    } else {
        ('a' as u8 + (n - 10)) as char
    }
}

/// Two lower-case hex digits for each byte, high half first.
pub open spec fn hex_text(bytes: Seq<u8>) -> Seq<char>
    decreases bytes.len(),
{
    if bytes.len() == 0 {
        Seq::empty()
    } else {
        hex_text(bytes.drop_last()) + seq![
            hex_digit(bytes.last() / 16),
            hex_digit(bytes.last() % 16),
        ]
    }
}

/// The value of a hex digit byte (`0`-`9`, `a`-`f`, `A`-`F`).
pub open spec fn hex_value(b: u8) -> Option<u8> {
    if 48 <= b <= 57 {
        Some((b - 48) as u8)
    } else if 97 <= b <= 102 {
        Some((b - 97 + 10) as u8)
    } else if 65 <= b <= 70 {
        Some((b - 65 + 10) as u8)
    } else {
        None
    }
}

/// The bytes that hex digit bytes stand for, two digits each, high half
/// first; `None` for an odd count or a byte that is not a hex digit.
pub open spec fn hex_bytes(digits: Seq<u8>) -> Option<Seq<u8>>
    decreases digits.len(),
{
    if digits.len() == 0 {
        Some(Seq::empty())
    } else if digits.len() == 1 {
        None
    } else {
        match (
            hex_bytes(digits.subrange(0, digits.len() - 2)),
            hex_value(digits[digits.len() - 2]),
            hex_value(digits.last()),
        ) {
            (Some(prev), Some(hi), Some(lo)) => Some(prev.push((hi * 16 + lo) as u8)),
            _ => None,
        }
    }
}

/// A half byte's hex digit reads back as that half.
proof fn lemma_hex_digit_value(n: u8)
    requires
        n < 16,
    ensures
        hex_value(hex_digit(n) as u8) == Some(n),
{
}

/// Hex text has two ASCII digits per byte.
proof fn lemma_hex_text_shape(b: Seq<u8>)
    ensures
        hex_text(b).len() == 2 * b.len(),
        vstd::utf8::is_ascii_chars(hex_text(b)),
    decreases b.len(),
{
    if b.len() > 0 {
        lemma_hex_text_shape(b.drop_last());
        let t = hex_text(b);
        let p = hex_text(b.drop_last());
        assert forall|i: int| 0 <= i < t.len() implies '\0' <= #[trigger] t[i] <= '\u{7f}' by {
            if i < p.len() {
                assert(t[i] == p[i]);
            }
        }
    }
}

/// Bytes equal, one by one, to the characters of `hex_text(b)` decode to `b`.
proof fn lemma_hex_bytes_of_digits(b: Seq<u8>, d: Seq<u8>)
    requires
        d.len() == 2 * b.len(),
        hex_text(b).len() == 2 * b.len(),
        forall|i: int| 0 <= i < d.len() ==> d[i] == #[trigger] hex_text(b)[i] as u8,
    ensures
        hex_bytes(d) == Some(b),
    decreases b.len(),
{
    if b.len() > 0 {
        let n = b.len();
        let prev = b.drop_last();
        let p = hex_text(prev);
        lemma_hex_text_shape(prev);
        let dp = d.subrange(0, d.len() - 2);
        assert forall|i: int| 0 <= i < dp.len() implies dp[i] == #[trigger] p[i] as u8 by {
            assert(hex_text(b)[i] == p[i]);
        }
        lemma_hex_bytes_of_digits(prev, dp);
        let hi = b.last() / 16;
        let lo = b.last() % 16;
        assert(hex_text(b)[2 * n - 2] == hex_digit(hi));
        assert(hex_text(b)[2 * n - 1] == hex_digit(lo));
        lemma_hex_digit_value(hi);
        lemma_hex_digit_value(lo);
        assert((hi * 16 + lo) as u8 == b.last());
        assert(prev.push(b.last()) =~= b);
    }
}

/// Hex text decodes back to the bytes it was made from: the DNS endpoints'
/// answers read back as the wire bytes they carry.
pub proof fn lemma_hex_round_trip(b: Seq<u8>)
    ensures
        hex_bytes(vstd::utf8::encode_utf8(hex_text(b))) == Some(b),
{
    lemma_hex_text_shape(b);
    vstd::utf8::is_ascii_chars_encode_utf8(hex_text(b));
    lemma_hex_bytes_of_digits(b, vstd::utf8::encode_utf8(hex_text(b)));
}

/// What the `{:?}` format prints for the character of byte `b` (the
/// character quoted, with std's escapes for those that need one).
pub uninterp spec fn char_debug_text(b: u8) -> Seq<char>;

/// The position of the first byte of `d` that is not a hex digit; `d.len()`
/// when every byte is one.
pub open spec fn first_non_digit(d: Seq<u8>) -> nat
    decreases d.len(),
{
    if d.len() == 0 || hex_value(d[0]) is None {
        0
    } else {
        1 + first_non_digit(d.drop_first())
    }
}

/// The text of the error `hex::decode` gives for an input it refuses: an
/// odd number of bytes is refused as such; otherwise the first byte that
/// is not a hex digit is named, with its position.
pub open spec fn hex_error_text(text: Seq<char>) -> Seq<char> {
    let d = vstd::utf8::encode_utf8(text);
    if d.len() % 2 != 0 {
        "Odd number of digits"@
    } else {
        let i = first_non_digit(d);
        "Invalid character "@ + char_debug_text(d[i as int]) + " at position "@ + crate::text::dec(i)
    }
}

/// Encodes bytes as lower-case hex with `hex::encode`.
#[verifier::external_body]
pub(crate) fn hex_encode(bytes: &[u8]) -> (r: String)
    ensures
        r@ == hex_text(bytes@),
{
    hex::encode(bytes)
}

/// Decodes hex text (either case, two digits per byte) with `hex::decode`;
/// an odd number of digits or a byte that is not a hex digit is refused,
/// with the error's text as `hex_error_text` states it, the printed form
/// of the refused character being the named `char_debug_text`.
#[verifier::external_body]
pub(crate) fn hex_decode(text: &str) -> (r: Result<Vec<u8>, String>)
    ensures
        match hex_bytes(vstd::utf8::encode_utf8(text@)) {
            Some(b) => r matches Ok(v) && v@ == b,
            None => r matches Err(e) && e@ == hex_error_text(text@) && (vstd::utf8::encode_utf8(
                text@,
            ).len() % 2 == 0 ==> e@ == "Invalid character "@ + char_debug_text(
                vstd::utf8::encode_utf8(text@)[first_non_digit(vstd::utf8::encode_utf8(text@)) as int],
            ) + " at position "@ + crate::text::dec(first_non_digit(vstd::utf8::encode_utf8(text@)))),
        },
{
    match hex::decode(text) {
        Ok(v) => Ok(v),
        Err(e) => Err(e.to_string()),
    }
}

/// The standard base64 digit for `v < 64`: `A`-`Z`, `a`-`z`, `0`-`9`, `+`, `/`.
pub open spec fn base64_digit(v: int) -> char {
    if v < 26 {
        ('A' as int + v) as char
    } else if v < 52 {
        ('a' as int + (v - 26)) as char
    } else if v < 62 {
        ('0' as int + (v - 52)) as char
    } else if v == 62 {
        '+'
    } else {
        '/'
    }
}

/// What `base64::engine::general_purpose::STANDARD.encode` makes of bytes:
/// four digits for each three bytes, six bits each, high bits first; a
/// last one or two bytes give two or three digits padded with `=` to four.
pub open spec fn base64_text(bytes: Seq<u8>) -> Seq<char>
    decreases bytes.len(),
{
    if bytes.len() == 0 {
        Seq::empty()
    } else if bytes.len() == 1 {
        let b0 = bytes[0] as int;
        seq![base64_digit(b0 / 4), base64_digit((b0 % 4) * 16), '=', '=']
    } else if bytes.len() == 2 {
        let b0 = bytes[0] as int;
        let b1 = bytes[1] as int;
        seq![
            base64_digit(b0 / 4),
            base64_digit((b0 % 4) * 16 + b1 / 16),
            base64_digit((b1 % 16) * 4),
            '=',
        ]
    } else {
        let b0 = bytes[0] as int;
        let b1 = bytes[1] as int;
        let b2 = bytes[2] as int;
        seq![
            base64_digit(b0 / 4),
            base64_digit((b0 % 4) * 16 + b1 / 16),
            base64_digit((b1 % 16) * 4 + b2 / 64),
            base64_digit(b2 % 64),
        ] + base64_text(bytes.skip(3))
    }
}

/// What `base64::engine::general_purpose::STANDARD.decode` makes of a
/// text: the bytes, or the text of its error.
pub uninterp spec fn base64_bytes(text: Seq<char>) -> Result<Seq<u8>, Seq<char>>;

/// Encodes bytes as padded standard base64 with the `base64` crate's
/// `STANDARD` engine, as `base64_text` states.
#[verifier::external_body]
pub(crate) fn base64_encode(bytes: &[u8]) -> (r: String)
    ensures
        r@ == base64_text(bytes@),
{
    base64::engine::general_purpose::STANDARD.encode(bytes)
}

/// Decodes padded standard base64 with the `base64` crate's `STANDARD`
/// engine, which takes only canonical text (padding as `encode` writes it,
/// no stray bits in the last digit): it succeeds exactly on the texts that
/// `base64_text` gives, with bytes that encode to the text. The result, and
/// the text of the error, is the named `base64_bytes`.
#[verifier::external_body]
pub(crate) fn base64_decode(text: &str) -> (r: Result<Vec<u8>, String>)
    ensures
        r is Ok <==> exists|b: Seq<u8>| base64_text(b) == text@,
        r matches Ok(v) ==> base64_text(v@) == text@,
        match r {
            Ok(v) => base64_bytes(text@) == Ok::<Seq<u8>, Seq<char>>(v@),
            Err(e) => base64_bytes(text@) == Err::<Seq<u8>, Seq<char>>(e@),
        },
{
    match base64::engine::general_purpose::STANDARD.decode(text) {
        Ok(v) => Ok(v),
        Err(e) => Err(e.to_string()),
    }
}

} // verus!
