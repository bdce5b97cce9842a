//! Transaction inputs: an outpoint, the script that unlocks it, a sequence number.

use crate::error::BitcoinError;
use crate::outpoint::{
    lemma_outpoint_roundtrip, outpoint_decoding, outpoint_encoding, OutPoint, OutPointView,
};
use crate::script::{
    lemma_script_decoding_bounds, lemma_script_roundtrip, script_decoding, script_encoding,
    Script,
};
use crate::wire::{append_bytes, lemma_u32_le_roundtrip, push_u32_le, read_u32_le, u32_from_le, u32_le};
use vstd::prelude::*;
use vstd::slice::slice_subrange;

verus! {

/// One spend: the output that is spent, the data that unlocks it, and a
/// sequence number.
#[derive(Debug, PartialEq, Eq, Clone)]
pub struct TransactionInput {
    pub previous_output: OutPoint,
    pub script_sig: Script,
    pub sequence: u32,
}

/// What a `TransactionInput` is.
pub struct InputView {
    pub previous_output: OutPointView,
    pub script_sig: Seq<u8>,
    pub sequence: u32,
}

impl InputView {
    /// The outpoint is well formed and the script's length fits a CompactSize.
    pub open spec fn wf(self) -> bool {
        &&& self.previous_output.wf()
        &&& self.script_sig.len() <= u64::MAX
    }
}

impl View for TransactionInput {
    type V = InputView;

    open spec fn view(&self) -> InputView {
        InputView {
            previous_output: self.previous_output@,
            script_sig: self.script_sig@,
            sequence: self.sequence,
        }
    }
}

/// The bytes of an input: its outpoint, its script with the length in front,
/// and the sequence number as a little-endian `u32`.
pub open spec fn input_encoding(i: InputView) -> Seq<u8> {
    outpoint_encoding(i.previous_output) + script_encoding(i.script_sig) + u32_le(i.sequence)
}

/// What the decoder reads at the front of `b`: an outpoint, behind it a
/// script, behind that four bytes of sequence number, together with the number
/// of bytes taken. `None` where any of the three cannot be read.
pub open spec fn input_decoding(b: Seq<u8>) -> Option<(InputView, nat)> {
    match outpoint_decoding(b) {
        None => None,
        Some((previous_output, out_len)) => match script_decoding(b.skip(out_len as int)) {
            None => None,
            Some((script_sig, script_len)) => {
                let offset = out_len + script_len;
                if b.len() < offset + 4 {
                    None
                } else {
                    Some(
                        (
                            InputView {
                                previous_output,
                                script_sig,
                                sequence: u32_from_le(b.skip(offset as int)),
                            },
                            (offset + 4) as nat,
                        ),
                    )
                }
            },
        },
    }
}

impl TransactionInput {
    /// An input of the given parts.
    pub fn new(previous_output: OutPoint, script_sig: Script, sequence: u32) -> (i: Self)
        ensures
            i.previous_output == previous_output,
            i.script_sig == script_sig,
            i.sequence == sequence,
    {
        TransactionInput { previous_output, script_sig, sequence }
    }

    /// The input's bytes on the wire.
    pub fn to_bytes(&self) -> (result: Vec<u8>)
        ensures
            result@ == input_encoding(self@),
    {
        let mut result: Vec<u8> = self.previous_output.to_bytes();
        let script: Vec<u8> = self.script_sig.to_bytes();
        append_bytes(&mut result, script.as_slice());
        push_u32_le(&mut result, self.sequence);
        result
    }

    /// Reads an input from the front of `bytes` and says how many bytes it
    /// took.
    pub fn from_bytes(bytes: &[u8]) -> (r: Result<(Self, usize), BitcoinError>)
        ensures
            match r {
                Ok((i, consumed)) => input_decoding(bytes@) == Some((i@, consumed as nat)),
                Err(e) => e == BitcoinError::InsufficientBytes && input_decoding(bytes@) is None,
            },
    {
        let (out_point, out_len): (OutPoint, usize) = match OutPoint::from_bytes(bytes) {
            Ok(read) => read,
            Err(_) => {
                return Err(BitcoinError::InsufficientBytes);
            },
        };
        let rest: &[u8] = slice_subrange(bytes, out_len, bytes.len());
        let (script_sig, script_len): (Script, usize) = match Script::from_bytes(rest) {
            Ok(read) => read,
            Err(_) => {
                return Err(BitcoinError::InsufficientBytes);
            },
        };
        proof {
            lemma_script_decoding_bounds(rest@);
        }
        let offset: usize = out_len + script_len;

        if bytes.len() - offset < 4 {
            return Err(BitcoinError::InsufficientBytes);
        }
        let sequence: u32 = read_u32_le(bytes, offset);

        Ok((TransactionInput { previous_output: out_point, script_sig, sequence }, offset + 4))
    }
}

/// Decoding the bytes of an input gives the input and the length of its
/// encoding, whatever bytes follow.
pub proof fn lemma_input_roundtrip(i: InputView, tail: Seq<u8>)
    requires
        i.wf(),
    ensures
        input_decoding(input_encoding(i)) == Some((i, input_encoding(i).len())),
        input_decoding(input_encoding(i) + tail) == Some((i, input_encoding(i).len())),
{
    let e = input_encoding(i);
    assert(e + Seq::<u8>::empty() =~= e);
    lemma_input_roundtrip_with_tail(i, Seq::empty());
    lemma_input_roundtrip_with_tail(i, tail);
}

proof fn lemma_input_roundtrip_with_tail(i: InputView, tail: Seq<u8>)
    requires
        i.wf(),
    ensures
        input_decoding(input_encoding(i) + tail) == Some((i, input_encoding(i).len())),
{
    let out = outpoint_encoding(i.previous_output);
    let script = script_encoding(i.script_sig);
    let seq = u32_le(i.sequence);
    let b = input_encoding(i) + tail;

    assert(b =~= out + (script + seq + tail));
    lemma_outpoint_roundtrip(i.previous_output, script + seq + tail);

    assert(b.skip(36) =~= script + (seq + tail));
    lemma_script_roundtrip(i.script_sig, seq + tail);

    assert(b.skip(36 + script.len() as int) =~= seq + tail);
    lemma_u32_le_roundtrip(i.sequence, tail);
}

/// A decoded input took at least 41 bytes and no more than the input has.
pub proof fn lemma_input_decoding_bounds(b: Seq<u8>)
    ensures
        input_decoding(b) matches Some((_, n)) ==> 41 <= n <= b.len(),
{
    if let Some((_, out_len)) = outpoint_decoding(b) {
        lemma_script_decoding_bounds(b.skip(out_len as int));
    }
}

/// The view of every `TransactionInput` is well formed.
pub proof fn lemma_input_view_wf(i: TransactionInput)
    ensures
        i@.wf(),
{
    assert(i.script_sig.bytes@.len() == i.script_sig.bytes.len());
}

} // verus!
