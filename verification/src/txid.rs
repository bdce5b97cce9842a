//! Transaction identifiers and their two byte orders.

use crate::error::BitcoinError;
use crate::hex_text::{
    hex_decode, hex_decoding, hex_digit_value, hex_encode, hex_encoding, is_hex_text,
    lemma_hex_roundtrip,
};
use crate::wire::read_32;
use vstd::prelude::*;

verus! {

/// A 32-byte transaction identifier, held in internal order. On the wire and
/// in hex text its bytes stand in the reverse order.
#[derive(Debug, PartialEq, Eq, Clone)]
pub struct Txid(pub [u8; 32]);

impl View for Txid {
    type V = Seq<u8>;

    open spec fn view(&self) -> Seq<u8> {
        self.0@
    }
}

/// The hex text of an identifier: its bytes in reverse order, two lowercase
/// digits each.
pub open spec fn txid_hex(id: Seq<u8>) -> Seq<char> {
    hex_encoding(id.reverse())
}

/// The identifier that `text` stands for: `text` must be hex text for exactly
/// 32 bytes, which are taken in reverse order.
pub open spec fn txid_from_hex(text: Seq<char>) -> Option<Seq<u8>> {
    match hex_decoding(text) {
        Some(bytes) => if bytes.len() == 32 {
            Some(bytes.reverse())
        } else {
            None
        },
        None => None,
    }
}

/// The 32 bytes of `bytes` in reverse order.
pub fn reversed(bytes: &[u8; 32]) -> (r: [u8; 32])
    ensures
        r@ == bytes@.reverse(),
{
    let mut r: [u8; 32] = [0u8; 32];
    let mut i: usize = 0;
    while i < 32
        invariant
            i <= 32,
            forall|k: int| 0 <= k < i ==> r@[k] == bytes@[31 - k],
        decreases 32 - i,
    {
        r[i] = bytes[31 - i];
        i += 1;
    }
    assert(r@ =~= bytes@.reverse());
    r
}

impl Txid {
    /// The identifier's bytes in display order, which is also the order on
    /// the wire: the reverse of the internal order.
    pub fn to_display_bytes(&self) -> (r: [u8; 32])
        ensures
            r@ == self@.reverse(),
    {
        reversed(&self.0)
    }

    /// The identifier whose bytes stand on the wire as `bytes`.
    pub fn from_wire_bytes(bytes: &[u8; 32]) -> (id: Txid)
        ensures
            id@ == bytes@.reverse(),
    {
        Txid(reversed(bytes))
    }

    /// The identifier as 64 lowercase hex digits, in display order.
    pub fn to_hex(&self) -> (text: String)
        ensures
            text@ == txid_hex(self@),
    {
        let display: [u8; 32] = self.to_display_bytes();
        hex_encode(display.as_slice())
    }

    /// Reads an identifier from 64 hex digits in display order. Any other
    /// text is refused as `InvalidFormat`.
    pub fn from_hex(text: &str) -> (r: Result<Txid, BitcoinError>)
        ensures
            match r {
                Ok(id) => txid_from_hex(text@) == Some(id@),
                Err(e) => e == BitcoinError::InvalidFormat && txid_from_hex(text@) is None,
            },
    {
        match hex_decode(text) {
            Err(_) => Err(BitcoinError::InvalidFormat),
            Ok(bytes) => {
                if bytes.len() != 32 {
                    return Err(BitcoinError::InvalidFormat);
                }
                let display: [u8; 32] = read_32(bytes.as_slice(), 0);
                assert(display@ =~= bytes@);
                Ok(Txid::from_wire_bytes(&display))
            },
        }
    }
}

/// Reversing a byte sequence twice gives it back.
pub proof fn lemma_reverse_twice(bytes: Seq<u8>)
    ensures
        bytes.reverse().len() == bytes.len(),
        bytes.reverse().reverse() == bytes,
{
    assert(bytes.reverse().reverse() =~= bytes);
}

/// Reading the hex text of an identifier gives the identifier back.
pub proof fn lemma_txid_hex_roundtrip(id: Seq<u8>)
    requires
        id.len() == 32,
    ensures
        txid_hex(id).len() == 64,
        txid_from_hex(txid_hex(id)) == Some(id),
{
    lemma_hex_roundtrip(id.reverse());
    lemma_reverse_twice(id);
}

/// Text is read as an identifier exactly when it is 64 hex digits: any other
/// length, and any character that is no hex digit, is refused.
pub proof fn lemma_txid_from_hex_accepts(text: Seq<char>)
    ensures
        txid_from_hex(text) is Some <==> text.len() == 64 && forall|i: int|
            0 <= i < text.len() ==> hex_digit_value(#[trigger] text[i]) is Some,
        text.len() != 64 ==> txid_from_hex(text) is None,
        (exists|i: int| 0 <= i < text.len() && hex_digit_value(#[trigger] text[i]) is None)
            ==> txid_from_hex(text) is None,
{
    if text.len() == 64 && is_hex_text(text) {
        assert(hex_decoding(text).unwrap().len() == 32);
    }
}

} // verus!
