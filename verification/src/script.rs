//! Scripts: uninterpreted bytes behind a CompactSize length.

use crate::compact_size::{
    compact_size_decoding, compact_size_encoding, lemma_compact_size_decoding_bounds,
    lemma_compact_size_roundtrip, CompactSize,
};
use crate::error::BitcoinError;
use crate::wire::{append_bytes, copy_range};
use vstd::prelude::*;

verus! {

/// The unlocking data of an input. The bytes are carried, never interpreted.
#[derive(Debug, PartialEq, Eq, Clone)]
pub struct Script {
    pub bytes: Vec<u8>,
}

impl View for Script {
    type V = Seq<u8>;

    open spec fn view(&self) -> Seq<u8> {
        self.bytes@
    }
}

/// The bytes of a script on the wire: its length as a CompactSize, then the
/// script itself.
pub open spec fn script_encoding(s: Seq<u8>) -> Seq<u8> {
    compact_size_encoding(s.len() as u64) + s
}

/// What the decoder reads at the front of `b`: a length `n` as a CompactSize,
/// then the `n` bytes behind it, together with the number of bytes taken.
/// `None` where the length cannot be read or fewer than `n` bytes follow it.
pub open spec fn script_decoding(b: Seq<u8>) -> Option<(Seq<u8>, nat)> {
    match compact_size_decoding(b) {
        None => None,
        Some((n, prefix)) => if b.len() < prefix + n {
            None
        } else {
            Some((b.subrange(prefix as int, prefix + n), prefix + n as nat))
        },
    }
}

impl Script {
    /// The script that holds `bytes`.
    pub fn new(bytes: Vec<u8>) -> (s: Self)
        ensures
            s@ == bytes@,
    {
        Script { bytes }
    }

    /// The script's bytes, to read.
    pub fn as_bytes(&self) -> (b: &[u8])
        ensures
            b@ == self@,
    {
        self.bytes.as_slice()
    }

    /// The script's bytes on the wire, its length in front.
    pub fn to_bytes(&self) -> (result: Vec<u8>)
        ensures
            result@ == script_encoding(self@),
    {
        let mut result: Vec<u8> = CompactSize::new(self.bytes.len() as u64).to_bytes();
        append_bytes(&mut result, self.bytes.as_slice());
        result
    }

    /// Reads a script from the front of `bytes` and says how many bytes it
    /// took, the length prefix included.
    pub fn from_bytes(bytes: &[u8]) -> (r: Result<(Self, usize), BitcoinError>)
        ensures
            match r {
                Ok((s, consumed)) => script_decoding(bytes@) == Some((s@, consumed as nat)),
                Err(e) => e == BitcoinError::InsufficientBytes && script_decoding(bytes@) is None,
            },
    {
        let (length_prefix, prefix_len): (CompactSize, usize) = match CompactSize::from_bytes(
            bytes,
        ) {
            Ok(read) => read,
            Err(_) => {
                return Err(BitcoinError::InsufficientBytes);
            },
        };
        proof {
            lemma_compact_size_decoding_bounds(bytes@);
        }
        let available: usize = bytes.len() - prefix_len;
        if length_prefix.value > available as u64 {
            return Err(BitcoinError::InsufficientBytes);
        }
        let script_len: usize = length_prefix.value as usize;
        let total_len: usize = prefix_len + script_len;

        let script_bytes: Vec<u8> = copy_range(bytes, prefix_len, total_len);
        Ok((Script::new(script_bytes), total_len))
    }
}

/// Decoding the bytes of a script gives the script and the length of its
/// encoding, whatever bytes follow.
pub proof fn lemma_script_roundtrip(s: Seq<u8>, tail: Seq<u8>)
    requires
        s.len() <= u64::MAX,
    ensures
        script_decoding(script_encoding(s)) == Some((s, script_encoding(s).len())),
        script_decoding(script_encoding(s) + tail) == Some((s, script_encoding(s).len())),
{
    let e = script_encoding(s);
    assert(e + Seq::<u8>::empty() =~= e);
    lemma_script_roundtrip_with_tail(s, Seq::empty());
    lemma_script_roundtrip_with_tail(s, tail);
}

proof fn lemma_script_roundtrip_with_tail(s: Seq<u8>, tail: Seq<u8>)
    requires
        s.len() <= u64::MAX,
    ensures
        script_decoding(script_encoding(s) + tail) == Some((s, script_encoding(s).len())),
{
    let n = s.len() as u64;
    let prefix = compact_size_encoding(n);
    let b = script_encoding(s) + tail;
    assert(b =~= prefix + (s + tail));
    lemma_compact_size_roundtrip(n, s + tail);
    assert(b.subrange(prefix.len() as int, prefix.len() + n) =~= s);
}

/// A decoded script took no more bytes than the input has.
pub proof fn lemma_script_decoding_bounds(b: Seq<u8>)
    ensures
        script_decoding(b) matches Some((s, n)) ==> 1 <= n <= b.len() && s.len() < n,
{
    lemma_compact_size_decoding_bounds(b);
}

} // verus!
