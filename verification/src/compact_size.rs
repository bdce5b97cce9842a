//! CompactSize: an unsigned 64-bit integer in one, three, five or nine bytes.

use crate::error::BitcoinError;
use crate::wire::{
    lemma_u16_le_roundtrip, lemma_u32_le_roundtrip, lemma_u64_le_roundtrip, push_u16_le,
    push_u32_le, push_u64_le, read_u16_le, read_u32_le, read_u64_le, u16_from_le, u16_le,
    u32_from_le, u32_le, u64_from_le, u64_le,
};
use vstd::prelude::*;

verus! {

/// An unsigned integer that is written as a length or count prefix.
#[derive(Debug, PartialEq, Eq, Clone)]
pub struct CompactSize {
    pub value: u64,
}

impl View for CompactSize {
    type V = u64;

    open spec fn view(&self) -> u64 {
        self.value
    }
}

/// How many bytes the encoder writes for `v`: the least that can hold it.
pub open spec fn compact_size_len(v: u64) -> nat {
    if v <= 0xFC {
        1
    } else if v <= 0xFFFF {
        3
    } else if v <= 0xFFFF_FFFF {
        5
    } else {
        9
    }
}

/// The bytes the encoder writes for `v`: the value itself where it is at most
/// `0xFC`, else a marker byte (`0xFD`, `0xFE`, `0xFF`) and the value as a
/// little-endian integer of two, four or eight bytes.
pub open spec fn compact_size_encoding(v: u64) -> Seq<u8> {
    if v <= 0xFC {
        seq![v as u8]
    } else if v <= 0xFFFF {
        seq![0xFDu8] + u16_le(v as u16)
    } else if v <= 0xFFFF_FFFF {
        seq![0xFEu8] + u32_le(v as u32)
    } else {
        seq![0xFFu8] + u64_le(v)
    }
}

/// What the decoder reads at the front of `b`: the value and the number of
/// bytes taken, or `None` where `b` is empty or ends before the form that its
/// first byte selects. A longer form than the value needs is accepted.
pub open spec fn compact_size_decoding(b: Seq<u8>) -> Option<(u64, nat)> {
    if b.len() == 0 {
        None
    } else if b[0] <= 0xFC {
        Some((b[0] as u64, 1))
    } else if b[0] == 0xFD {
        if b.len() < 3 {
            None
        } else {
            Some((u16_from_le(b.skip(1)) as u64, 3))
        }
    } else if b[0] == 0xFE {
        if b.len() < 5 {
            None
        } else {
            Some((u32_from_le(b.skip(1)) as u64, 5))
        }
    } else {
        if b.len() < 9 {
            None
        } else {
            Some((u64_from_le(b.skip(1)), 9))
        }
    }
}

impl CompactSize {
    /// The CompactSize that holds `value`.
    pub fn new(value: u64) -> (cs: Self)
        ensures
            cs.value == value,
    {
        CompactSize { value }
    }

    /// Writes the value in its shortest form.
    pub fn to_bytes(&self) -> (encoded: Vec<u8>)
        ensures
            encoded@ == compact_size_encoding(self.value),
            encoded@.len() == compact_size_len(self.value),
    {
        let value: u64 = self.value;
        let mut encoded: Vec<u8> = Vec::new();

        if value < 0xFD {
            encoded.push(value as u8);
        } else if value <= 0xFFFF {
            encoded.push(0xFD);
            push_u16_le(&mut encoded, value as u16);
        } else if value <= 0xFFFF_FFFF {
            encoded.push(0xFE);
            push_u32_le(&mut encoded, value as u32);
        } else {
            encoded.push(0xFF);
            push_u64_le(&mut encoded, value);
        }

        encoded
    }

    /// Reads a value from the front of `bytes` and says how many bytes it took.
    pub fn from_bytes(bytes: &[u8]) -> (r: Result<(Self, usize), BitcoinError>)
        ensures
            match r {
                Ok((cs, consumed)) => compact_size_decoding(bytes@) == Some(
                    (cs.value, consumed as nat),
                ),
                Err(e) => e == BitcoinError::InsufficientBytes && compact_size_decoding(bytes@)
                    is None,
            },
    {
        if bytes.len() == 0 {
            return Err(BitcoinError::InsufficientBytes);
        }
        let first: u8 = bytes[0];

        if first <= 0xFC {
            Ok((CompactSize::new(first as u64), 1))
        } else if first == 0xFD {
            if bytes.len() < 3 {
                return Err(BitcoinError::InsufficientBytes);
            }
            let val: u64 = read_u16_le(bytes, 1) as u64;
            Ok((CompactSize::new(val), 3))
        } else if first == 0xFE {
            if bytes.len() < 5 {
                return Err(BitcoinError::InsufficientBytes);
            }
            let val: u64 = read_u32_le(bytes, 1) as u64;
            Ok((CompactSize::new(val), 5))
        } else {
            if bytes.len() < 9 {
                return Err(BitcoinError::InsufficientBytes);
            }
            let val: u64 = read_u64_le(bytes, 1);
            Ok((CompactSize::new(val), 9))
        }
    }
}

/// Decoding what the encoder wrote for `v` gives `v` and the encoding's
/// length, whatever bytes follow the encoding.
pub proof fn lemma_compact_size_roundtrip(v: u64, tail: Seq<u8>)
    ensures
        compact_size_decoding(compact_size_encoding(v)) == Some(
            (v, compact_size_encoding(v).len()),
        ),
        compact_size_decoding(compact_size_encoding(v) + tail) == Some(
            (v, compact_size_encoding(v).len()),
        ),
{
    let e = compact_size_encoding(v);
    assert(e + Seq::<u8>::empty() =~= e);
    lemma_compact_size_roundtrip_with_tail(v, Seq::empty());
    lemma_compact_size_roundtrip_with_tail(v, tail);
}

proof fn lemma_compact_size_roundtrip_with_tail(v: u64, tail: Seq<u8>)
    ensures
        compact_size_decoding(compact_size_encoding(v) + tail) == Some(
            (v, compact_size_encoding(v).len()),
        ),
{
    let b = compact_size_encoding(v) + tail;
    if v <= 0xFC {
    } else if v <= 0xFFFF {
        lemma_u16_le_roundtrip(v as u16, tail);
        assert(b.skip(1) =~= u16_le(v as u16) + tail);
    } else if v <= 0xFFFF_FFFF {
        lemma_u32_le_roundtrip(v as u32, tail);
        assert(b.skip(1) =~= u32_le(v as u32) + tail);
    } else {
        lemma_u64_le_roundtrip(v, tail);
        assert(b.skip(1) =~= u64_le(v) + tail);
    }
}

/// The encoder writes one byte up to `0xFC`, three up to `0xFFFF`, five up to
/// `0xFFFF_FFFF` and nine above.
pub proof fn lemma_compact_size_len(v: u64)
    ensures
        compact_size_encoding(v).len() == compact_size_len(v),
        v <= 0xFC ==> compact_size_encoding(v).len() == 1,
        0xFC < v <= 0xFFFF ==> compact_size_encoding(v).len() == 3,
        0xFFFF < v <= 0xFFFF_FFFF ==> compact_size_encoding(v).len() == 5,
        0xFFFF_FFFF < v ==> compact_size_encoding(v).len() == 9,
{
}

/// No input that decodes to a value takes fewer bytes than the encoder writes
/// for that value.
pub proof fn lemma_compact_size_shortest(b: Seq<u8>)
    ensures
        compact_size_decoding(b) matches Some((v, n)) ==> compact_size_encoding(v).len() <= n,
{
}

/// A decoded value took at least one byte and no more bytes than the input has.
pub proof fn lemma_compact_size_decoding_bounds(b: Seq<u8>)
    ensures
        compact_size_decoding(b) matches Some((_, n)) ==> 1 <= n <= b.len(),
{
}

} // verus!
