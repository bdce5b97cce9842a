//! Bytes as hexadecimal text, two digits to a byte.

use vstd::prelude::*;

verus! {

/// The error of the `hex` crate's decoder. Nothing is read from it.
#[verifier::external_type_specification]
#[verifier::external_body]
pub struct ExFromHexError(hex::FromHexError);

/// The lowercase digit that stands for `n`, a number below 16.
pub open spec fn hex_digit(n: int) -> char {
    seq!['0', '1', '2', '3', '4', '5', '6', '7', '8', '9', 'a', 'b', 'c', 'd', 'e', 'f'][n]
}

/// The number that the digit `c` stands for, in either case, or `None` where
/// `c` is no hex digit.
pub open spec fn hex_digit_value(c: char) -> Option<int> {
    if '0' <= c <= '9' {
        Some(c as int - '0' as int)
    } else if 'a' <= c <= 'f' {
        Some(c as int - 'a' as int + 10)
    } else if 'A' <= c <= 'F' {
        Some(c as int - 'A' as int + 10)
    } else {
        None
    }
}

/// Two lowercase digits for each byte, the high half first.
pub open spec fn hex_encoding(bytes: Seq<u8>) -> Seq<char> {
    Seq::new(
        2 * bytes.len(),
        |i: int| if i % 2 == 0 {
            hex_digit(bytes[i / 2] as int / 16)
        } else {
            hex_digit(bytes[i / 2] as int % 16)
        },
    )
}

/// Text that the decoder accepts: an even number of hex digits.
pub open spec fn is_hex_text(text: Seq<char>) -> bool {
    &&& text.len() % 2 == 0
    &&& forall|i: int| 0 <= i < text.len() ==> hex_digit_value(#[trigger] text[i]) is Some
}

/// The bytes that `text` stands for, or `None` where it is not hex text.
pub open spec fn hex_decoding(text: Seq<char>) -> Option<Seq<u8>> {
    if is_hex_text(text) {
        Some(
            Seq::new(
                text.len() / 2,
                |i: int|
                    (hex_digit_value(text[2 * i]).unwrap() * 16 + hex_digit_value(
                        text[2 * i + 1],
                    ).unwrap()) as u8,
            ),
        )
    } else {
        None
    }
}

/// Calls `hex::encode`, which writes each byte as two lowercase hex digits,
/// the high half first, and nothing else.
#[verifier::external_body]
pub(crate) fn hex_encode(bytes: &[u8]) -> (text: String)
    ensures
        text@ == hex_encoding(bytes@),
{
    hex::encode(bytes)
}

/// Calls `hex::decode`, which fails on an odd number of bytes and on any byte
/// that is no ASCII hex digit of either case, and else gives one byte for each
/// two digits, the high half first. A character outside ASCII is written as
/// bytes of which none is a hex digit, so the text is accepted exactly when
/// it is an even number of hex digits.
#[verifier::external_body]
pub(crate) fn hex_decode(text: &str) -> (r: Result<Vec<u8>, hex::FromHexError>)
    ensures
        match r {
            Ok(bytes) => hex_decoding(text@) == Some(bytes@),
            Err(_) => hex_decoding(text@) is None,
        },
{
    hex::decode(text)
}

/// Each digit that the encoder writes stands for the number it was written for.
pub proof fn lemma_hex_digit_value(n: int)
    requires
        0 <= n < 16,
    ensures
        hex_digit_value(hex_digit(n)) == Some(n),
{
}

/// Decoding the text that the encoder wrote for `bytes` gives `bytes`.
pub proof fn lemma_hex_roundtrip(bytes: Seq<u8>)
    ensures
        hex_encoding(bytes).len() == 2 * bytes.len(),
        hex_decoding(hex_encoding(bytes)) == Some(bytes),
{
    let text = hex_encoding(bytes);
    assert forall|i: int| 0 <= i < text.len() implies hex_digit_value(#[trigger] text[i])
        is Some by {
        lemma_hex_digit_value(bytes[i / 2] as int / 16);
        lemma_hex_digit_value(bytes[i / 2] as int % 16);
    }
    assert(is_hex_text(text));
    let decoded = hex_decoding(text).unwrap();
    assert forall|k: int| 0 <= k < bytes.len() implies decoded[k] == bytes[k] by {
        lemma_hex_digit_value(bytes[k] as int / 16);
        lemma_hex_digit_value(bytes[k] as int % 16);
        assert((2 * k) / 2 == k && (2 * k) % 2 == 0);
        assert((2 * k + 1) / 2 == k && (2 * k + 1) % 2 == 1);
    }
    assert(decoded =~= bytes);
}

} // verus!
