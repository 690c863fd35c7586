//! Hexadecimal text for byte strings, as the `hex` crate writes and reads it.

use vstd::prelude::*;

verus! {

/// The lower-case hexadecimal digit of a value below 16.
pub open spec fn hex_char(n: int) -> char {
    if n == 0 {
        '0'
    } else if n == 1 {
        '1'
    } else if n == 2 {
        '2'
    } else if n == 3 {
        '3'
    } else if n == 4 {
        '4'
    } else if n == 5 {
        '5'
    } else if n == 6 {
        '6'
    } else if n == 7 {
        '7'
    } else if n == 8 {
        '8'
    } else if n == 9 {
        '9'
    } else if n == 10 {
        'a'
    } else if n == 11 {
        'b'
    } else if n == 12 {
        'c'
    } else if n == 13 {
        'd'
    } else if n == 14 {
        'e'
    } else {
        'f'
    }
}

/// The hexadecimal text of a byte string: two lower-case digits per byte,
/// the high half first.
pub open spec fn hex_chars(data: Seq<u8>) -> Seq<char> {
    Seq::new(
        2 * data.len(),
        |i: int|
            if i % 2 == 0 {
                hex_char(data[i / 2] as int / 16)
            } else {
                hex_char(data[i / 2] as int % 16)
            },
    )
}

/// The value of a hexadecimal digit given by its ASCII code, in either case.
pub open spec fn hex_value(c: u8) -> Option<int> {
    if 48 <= c <= 57 {
        Some(c - 48)
    } else if 97 <= c <= 102 {
        Some(c - 87)
    } else if 65 <= c <= 70 {
        Some(c - 55)
    } else {
        None
    }
}

/// Whether a text, given by its bytes, is hexadecimal: an even number of
/// hexadecimal digits.
pub open spec fn is_hex_text(text: Seq<u8>) -> bool {
    &&& text.len() % 2 == 0
    &&& forall|i: int| 0 <= i < text.len() ==> hex_value(#[trigger] text[i]) is Some
}

/// The bytes that a hexadecimal text stands for.
pub open spec fn hex_decoded(text: Seq<u8>) -> Seq<u8> {
    Seq::new(
        text.len() / 2,
        |i: int| (16 * hex_value(text[2 * i]).unwrap() + hex_value(text[2 * i + 1]).unwrap()) as u8,
    )
}

/// Why a text is not hexadecimal, as `hex` reports it.
#[verifier::external_type_specification]
#[verifier::external_body]
pub struct ExFromHexError(hex::FromHexError);

/// `hex::encode`: the text holds two lower-case hexadecimal digits for each
/// byte, in order, the high half of a byte first.
#[verifier::external_body]
pub(crate) fn hex_encode(data: &[u8]) -> (text: String)
    ensures
        text@ == hex_chars(data@),
{
    hex::encode(data)
}

/// `hex::decode` on the bytes of a text: it succeeds exactly on an even
/// number of hexadecimal digits of either case, and then gives one byte for
/// each pair of digits, the first digit being the high half.
#[verifier::external_body]
pub(crate) fn hex_decode(text: &[u8]) -> (r: Result<Vec<u8>, hex::FromHexError>)
    ensures
        r is Ok <==> is_hex_text(text@),
        r matches Ok(data) ==> data@ == hex_decoded(text@),
{
    hex::decode(text)
}

/// The ASCII code of the lower-case hexadecimal digit of a value below 16.
pub open spec fn hex_code(n: int) -> u8 {
    if n < 10 {
        (48 + n) as u8
    } else {
        (87 + n) as u8
    }
}

/// The hexadecimal text of a byte string, as ASCII codes.
pub open spec fn hex_codes(data: Seq<u8>) -> Seq<u8> {
    Seq::new(
        2 * data.len(),
        |i: int|
            if i % 2 == 0 {
                hex_code(data[i / 2] as int / 16)
            } else {
                hex_code(data[i / 2] as int % 16)
            },
    )
}

/// Round trip: the hexadecimal text of a byte string is hexadecimal, and
/// stands for the byte string.
pub proof fn lemma_hex_round_trip(data: Seq<u8>)
    ensures
        is_hex_text(hex_codes(data)),
        hex_decoded(hex_codes(data)) == data,
{
    let text = hex_codes(data);
    assert forall|i: int| 0 <= i < text.len() implies hex_value(#[trigger] text[i]) is Some by {
        let n = if i % 2 == 0 {
            data[i / 2] as int / 16
        } else {
            data[i / 2] as int % 16
        };
        assert(0 <= n < 16);
        assert(text[i] == hex_code(n));
    }
    assert forall|k: int| 0 <= k < data.len() implies hex_decoded(text)[k] == data[k] by {
        let hi = data[k] as int / 16;
        let lo = data[k] as int % 16;
        assert((2 * k) % 2 == 0 && (2 * k) / 2 == k);
        assert((2 * k + 1) % 2 == 1 && (2 * k + 1) / 2 == k);
        assert(text[2 * k] == hex_code(hi));
        assert(text[2 * k + 1] == hex_code(lo));
        assert(hex_value(hex_code(hi)) == Some(hi));
        assert(hex_value(hex_code(lo)) == Some(lo));
        assert(16 * hi + lo == data[k] as int);
    }
    assert(hex_decoded(text) =~= data);
}

/// The hexadecimal text of a byte string is ASCII, and its bytes are the
/// codes of its digits.
pub proof fn lemma_hex_chars_bytes(data: Seq<u8>)
    ensures
        vstd::utf8::encode_utf8(hex_chars(data)) == hex_codes(data),
{
    let chars = hex_chars(data);
    assert forall|i: int| 0 <= i < chars.len() implies '\0' <= #[trigger] chars[i] <= '\u{7f}'
        && chars[i] as u8 == hex_codes(data)[i] by {
        let n = if i % 2 == 0 {
            data[i / 2] as int / 16
        } else {
            data[i / 2] as int % 16
        };
        assert(0 <= n < 16);
        assert(chars[i] == hex_char(n));
        assert(hex_codes(data)[i] == hex_code(n));
    }
    assert(vstd::utf8::is_ascii_chars(chars));
    vstd::utf8::is_ascii_chars_encode_utf8(chars);
    assert(vstd::utf8::encode_utf8(chars) =~= hex_codes(data));
}

/// The text of a prefix of the bytes is a prefix of the text.
pub proof fn lemma_hex_chars_prefix(data: Seq<u8>, n: int)
    requires
        0 <= n <= data.len(),
    ensures
        hex_chars(data.take(n)) == hex_chars(data).take(2 * n),
{
    assert(hex_chars(data.take(n)) =~= hex_chars(data).take(2 * n));
}

} // verus!
