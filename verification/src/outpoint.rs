//! References to an output of an earlier transaction.

use crate::error::BitcoinError;
use crate::wire::{
    append_bytes, lemma_u32_le_roundtrip, push_u32_le, read_32, read_u32_le, u32_from_le, u32_le,
};
use crate::txid::{lemma_reverse_twice, Txid};
use vstd::prelude::*;

verus! {

/// The output `vout` of the transaction `txid`.
#[derive(Debug, PartialEq, Eq, Clone)]
pub struct OutPoint {
    pub txid: Txid,
    pub vout: u32,
}

/// What an `OutPoint` is: an identifier in internal order and an index.
pub struct OutPointView {
    pub txid: Seq<u8>,
    pub vout: u32,
}

impl OutPointView {
    /// The identifier has 32 bytes.
    pub open spec fn wf(self) -> bool {
        self.txid.len() == 32
    }
}

impl View for OutPoint {
    type V = OutPointView;

    open spec fn view(&self) -> OutPointView {
        OutPointView { txid: self.txid@, vout: self.vout }
    }
}

/// The 36 bytes of an outpoint: the identifier in wire order, which is the
/// reverse of the internal order, then the index as a little-endian `u32`.
pub open spec fn outpoint_encoding(o: OutPointView) -> Seq<u8> {
    o.txid.reverse() + u32_le(o.vout)
}

/// What the decoder reads at the front of `b`: an outpoint and the 36 bytes
/// taken, or `None` where `b` is shorter.
pub open spec fn outpoint_decoding(b: Seq<u8>) -> Option<(OutPointView, nat)> {
    if b.len() < 36 {
        None
    } else {
        Some(
            (OutPointView { txid: b.subrange(0, 32).reverse(), vout: u32_from_le(b.skip(32)) }, 36),
        )
    }
}

impl OutPoint {
    /// The output `vout` of the transaction whose identifier, in internal
    /// order, is `txid`.
    pub fn new(txid: [u8; 32], vout: u32) -> (o: Self)
        ensures
            o@ == (OutPointView { txid: txid@, vout }),
            o@.wf(),
    {
        OutPoint { txid: Txid(txid), vout }
    }

    /// The outpoint's 36 bytes on the wire.
    pub fn to_bytes(&self) -> (bytes: Vec<u8>)
        ensures
            bytes@ == outpoint_encoding(self@),
            bytes@.len() == 36,
    {
        let mut bytes: Vec<u8> = Vec::new();
        let wire: [u8; 32] = self.txid.to_display_bytes();
        append_bytes(&mut bytes, wire.as_slice());
        push_u32_le(&mut bytes, self.vout);
        bytes
    }

    /// Reads an outpoint from the front of `bytes`; it takes 36 bytes.
    pub fn from_bytes(bytes: &[u8]) -> (r: Result<(Self, usize), BitcoinError>)
        ensures
            match r {
                Ok((o, consumed)) => outpoint_decoding(bytes@) == Some((o@, consumed as nat)),
                Err(e) => e == BitcoinError::InsufficientBytes && outpoint_decoding(bytes@)
                    is None,
            },
    {
        if bytes.len() < 36 {
            return Err(BitcoinError::InsufficientBytes);
        }
        let wire: [u8; 32] = read_32(bytes, 0);
        let txid: Txid = Txid::from_wire_bytes(&wire);
        let vout: u32 = read_u32_le(bytes, 32);

        Ok((OutPoint { txid, vout }, 36))
    }
}

/// Decoding the bytes of an outpoint gives the outpoint and 36, whatever
/// bytes follow.
pub proof fn lemma_outpoint_roundtrip(o: OutPointView, tail: Seq<u8>)
    requires
        o.wf(),
    ensures
        outpoint_encoding(o).len() == 36,
        outpoint_decoding(outpoint_encoding(o)) == Some((o, 36nat)),
        outpoint_decoding(outpoint_encoding(o) + tail) == Some((o, 36nat)),
{
    let e = outpoint_encoding(o);
    assert(e + Seq::<u8>::empty() =~= e);
    lemma_outpoint_roundtrip_with_tail(o, Seq::empty());
    lemma_outpoint_roundtrip_with_tail(o, tail);
}

proof fn lemma_outpoint_roundtrip_with_tail(o: OutPointView, tail: Seq<u8>)
    requires
        o.wf(),
    ensures
        outpoint_encoding(o).len() == 36,
        outpoint_decoding(outpoint_encoding(o) + tail) == Some((o, 36nat)),
{
    let b = outpoint_encoding(o) + tail;
    lemma_reverse_twice(o.txid);
    lemma_u32_le_roundtrip(o.vout, tail);
    assert(b.subrange(0, 32) =~= o.txid.reverse());
    assert(b.skip(32) =~= u32_le(o.vout) + tail);
}

/// The view of every `OutPoint` is well formed.
pub proof fn lemma_outpoint_view_wf(o: OutPoint)
    ensures
        o@.wf(),
{
}

} // verus!
