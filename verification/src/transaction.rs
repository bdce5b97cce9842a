//! Transactions: a version, a counted list of inputs, a lock time.

use crate::compact_size::{
    compact_size_decoding, compact_size_encoding, lemma_compact_size_decoding_bounds,
    lemma_compact_size_roundtrip, CompactSize,
};
use crate::error::BitcoinError;
use crate::input::{
    input_decoding, input_encoding, lemma_input_decoding_bounds, lemma_input_roundtrip,
    InputView, TransactionInput,
};
use crate::wire::{
    append_bytes, lemma_concat_assoc, lemma_concat_skip, lemma_u32_le_roundtrip, push_u32_le,
    read_u32_le, u32_from_le, u32_le,
};
use vstd::prelude::*;
use vstd::slice::slice_subrange;

verus! {

/// A transaction of this format: it has inputs and no outputs.
#[derive(Debug, PartialEq, Eq, Clone)]
pub struct BitcoinTransaction {
    pub version: u32,
    pub inputs: Vec<TransactionInput>,
    pub lock_time: u32,
}

/// What a `BitcoinTransaction` is.
pub struct TransactionView {
    pub version: u32,
    pub inputs: Seq<InputView>,
    pub lock_time: u32,
}

impl TransactionView {
    /// The number of inputs fits a CompactSize and each input is well formed.
    pub open spec fn wf(self) -> bool {
        &&& self.inputs.len() <= u64::MAX
        &&& forall|k: int| 0 <= k < self.inputs.len() ==> (#[trigger] self.inputs[k]).wf()
    }
}

/// The views of a run of inputs, in order.
pub open spec fn input_views(inputs: Seq<TransactionInput>) -> Seq<InputView> {
    Seq::new(inputs.len(), |k: int| inputs[k]@)
}

impl View for BitcoinTransaction {
    type V = TransactionView;

    open spec fn view(&self) -> TransactionView {
        TransactionView {
            version: self.version,
            inputs: input_views(self.inputs@),
            lock_time: self.lock_time,
        }
    }
}

/// The bytes of a run of inputs: their encodings one after another.
pub open spec fn inputs_encoding(inputs: Seq<InputView>) -> Seq<u8>
    decreases inputs.len(),
{
    if inputs.len() == 0 {
        Seq::empty()
    } else {
        inputs_encoding(inputs.drop_last()) + input_encoding(inputs.last())
    }
}

/// What the decoder reads at the front of `b` when it is asked for `count`
/// inputs: the inputs in order, each read where the one before it ended, and
/// the number of bytes taken. `None` where one of them cannot be read.
pub open spec fn inputs_decoding(b: Seq<u8>, count: nat) -> Option<(Seq<InputView>, nat)>
    decreases count,
{
    if count == 0 {
        Some((Seq::empty(), 0))
    } else {
        match inputs_decoding(b, (count - 1) as nat) {
            None => None,
            Some((front, offset)) => match input_decoding(b.skip(offset as int)) {
                None => None,
                Some((last, len)) => Some((front.push(last), offset + len)),
            },
        }
    }
}

/// The bytes of a transaction: the version as a little-endian `u32`, the
/// number of inputs as a CompactSize, the inputs, and the lock time as a
/// little-endian `u32`.
pub open spec fn transaction_encoding(t: TransactionView) -> Seq<u8> {
    u32_le(t.version) + compact_size_encoding(t.inputs.len() as u64) + inputs_encoding(t.inputs)
        + u32_le(t.lock_time)
}

/// What the decoder reads at the front of `b`: four bytes of version, a
/// count, that many inputs, four bytes of lock time, together with the number
/// of bytes taken. `None` where any part cannot be read; there is no partial
/// result.
pub open spec fn transaction_decoding(b: Seq<u8>) -> Option<(TransactionView, nat)> {
    if b.len() < 4 {
        None
    } else {
        match compact_size_decoding(b.skip(4)) {
            None => None,
            Some((count, count_len)) => match inputs_decoding(
                b.skip(4 + count_len as int),
                count as nat,
            ) {
                None => None,
                Some((inputs, inputs_len)) => {
                    let offset = 4 + count_len + inputs_len;
                    if b.len() < offset + 4 {
                        None
                    } else {
                        Some(
                            (
                                TransactionView {
                                    version: u32_from_le(b),
                                    inputs,
                                    lock_time: u32_from_le(b.skip(offset as int)),
                                },
                                (offset + 4) as nat,
                            ),
                        )
                    }
                },
            },
        }
    }
}

impl BitcoinTransaction {
    /// A transaction of the given version, inputs and lock time.
    pub fn new(version: u32, inputs: Vec<TransactionInput>, lock_time: u32) -> (t: Self)
        ensures
            t.version == version,
            t.inputs == inputs,
            t.lock_time == lock_time,
    {
        BitcoinTransaction { version, inputs, lock_time }
    }

    /// The transaction's bytes on the wire.
    pub fn to_bytes(&self) -> (result: Vec<u8>)
        ensures
            result@ == transaction_encoding(self@),
    {
        let mut result: Vec<u8> = Vec::new();
        push_u32_le(&mut result, self.version);

        let input_count: Vec<u8> = CompactSize::new(self.inputs.len() as u64).to_bytes();
        append_bytes(&mut result, input_count.as_slice());

        let ghost header = result@;
        let ghost views = input_views(self.inputs@);
        let mut k: usize = 0;
        while k < self.inputs.len()
            invariant
                k <= self.inputs@.len(),
                views == input_views(self.inputs@),
                result@ == header + inputs_encoding(views.take(k as int)),
            decreases self.inputs@.len() - k,
        {
            let input: Vec<u8> = self.inputs[k].to_bytes();
            append_bytes(&mut result, input.as_slice());
            proof {
                let next = views.take(k + 1);
                assert(next.drop_last() =~= views.take(k as int));
                assert(next.last() == self.inputs@[k as int]@);
            }
            k += 1;
        }
        assert(views.take(k as int) =~= views);

        push_u32_le(&mut result, self.lock_time);
        assert(header =~= u32_le(self.version) + compact_size_encoding(views.len() as u64));
        result
    }

    /// Reads a transaction from the front of `bytes` and says how many bytes
    /// it took. The first part that cannot be read fails the whole.
    pub fn from_bytes(bytes: &[u8]) -> (r: Result<(Self, usize), BitcoinError>)
        ensures
            match r {
                Ok((t, consumed)) => transaction_decoding(bytes@) == Some(
                    (t@, consumed as nat),
                ),
                Err(e) => e == BitcoinError::InsufficientBytes && transaction_decoding(bytes@)
                    is None,
            },
    {
        if bytes.len() < 4 {
            return Err(BitcoinError::InsufficientBytes);
        }
        let version: u32 = read_u32_le(bytes, 0);
        assert(bytes@.skip(0) =~= bytes@);

        let after_version: &[u8] = slice_subrange(bytes, 4, bytes.len());
        let (input_count, input_count_len): (CompactSize, usize) = match CompactSize::from_bytes(
            after_version,
        ) {
            Ok(read) => read,
            Err(_) => {
                return Err(BitcoinError::InsufficientBytes);
            },
        };
        proof {
            lemma_compact_size_decoding_bounds(after_version@);
        }
        let start: usize = 4 + input_count_len;
        let body: &[u8] = slice_subrange(bytes, start, bytes.len());

        let mut inputs: Vec<TransactionInput> = Vec::new();
        let mut used: usize = 0;
        let mut read: u64 = 0;
        assert(input_views(inputs@) =~= Seq::empty());
        while read < input_count.value
            invariant
                bytes@.len() >= 4,
                compact_size_decoding(bytes@.skip(4)) == Some(
                    (input_count.value, input_count_len as nat),
                ),
                body@ == bytes@.skip(4 + input_count_len),
                read <= input_count.value,
                used <= body@.len(),
                inputs_decoding(body@, read as nat) == Some((input_views(inputs@), used as nat)),
            decreases input_count.value - read,
        {
            let rest: &[u8] = slice_subrange(body, used, body.len());
            match TransactionInput::from_bytes(rest) {
                Err(_) => {
                    proof {
                        lemma_inputs_decoding_fails_on(
                            body@,
                            (read + 1) as nat,
                            input_count.value as nat,
                        );
                    }
                    return Err(BitcoinError::InsufficientBytes);
                },
                Ok((input, input_len)) => {
                    proof {
                        lemma_input_decoding_bounds(rest@);
                        assert(input_views(inputs@.push(input)) =~= input_views(inputs@).push(
                            input@,
                        ));
                    }
                    inputs.push(input);
                    used = used + input_len;
                    read = read + 1;
                },
            }
        }
        let offset: usize = start + used;

        if bytes.len() - offset < 4 {
            return Err(BitcoinError::InsufficientBytes);
        }
        let lock_time: u32 = read_u32_le(bytes, offset);

        Ok((BitcoinTransaction { version, inputs, lock_time }, offset + 4))
    }
}

/// Where `k` inputs cannot be read from `b`, no greater number can.
pub proof fn lemma_inputs_decoding_fails_on(b: Seq<u8>, k: nat, count: nat)
    requires
        inputs_decoding(b, k) is None,
        k <= count,
    ensures
        inputs_decoding(b, count) is None,
    decreases count,
{
    if k < count {
        lemma_inputs_decoding_fails_on(b, k, (count - 1) as nat);
    }
}

/// Decoding as many inputs as were encoded gives them back, and the length of
/// their encoding, whatever bytes follow.
pub proof fn lemma_inputs_roundtrip(inputs: Seq<InputView>, tail: Seq<u8>)
    requires
        forall|k: int| 0 <= k < inputs.len() ==> (#[trigger] inputs[k]).wf(),
    ensures
        inputs_decoding(inputs_encoding(inputs) + tail, inputs.len()) == Some(
            (inputs, inputs_encoding(inputs).len()),
        ),
    decreases inputs.len(),
{
    if inputs.len() > 0 {
        let front = inputs.drop_last();
        let last = inputs.last();
        let b = inputs_encoding(inputs) + tail;
        assert(b =~= inputs_encoding(front) + (input_encoding(last) + tail));
        lemma_inputs_roundtrip(front, input_encoding(last) + tail);
        assert(b.skip(inputs_encoding(front).len() as int) =~= input_encoding(last) + tail);
        lemma_input_roundtrip(last, tail);
        assert(front.push(last) =~= inputs);
    } else {
        assert(inputs =~= Seq::empty());
    }
}

/// Decoding the bytes of a transaction gives the transaction and the length
/// of its encoding, whatever bytes follow.
pub proof fn lemma_transaction_roundtrip(t: TransactionView, tail: Seq<u8>)
    requires
        t.wf(),
    ensures
        transaction_decoding(transaction_encoding(t)) == Some((t, transaction_encoding(t).len())),
        transaction_decoding(transaction_encoding(t) + tail) == Some(
            (t, transaction_encoding(t).len()),
        ),
{
    let e = transaction_encoding(t);
    assert(e + Seq::<u8>::empty() =~= e);
    lemma_transaction_roundtrip_with_tail(t, Seq::empty());
    lemma_transaction_roundtrip_with_tail(t, tail);
}

proof fn lemma_transaction_roundtrip_with_tail(t: TransactionView, tail: Seq<u8>)
    requires
        t.wf(),
    ensures
        transaction_decoding(transaction_encoding(t) + tail) == Some(
            (t, transaction_encoding(t).len()),
        ),
{
    let version = u32_le(t.version);
    let count = compact_size_encoding(t.inputs.len() as u64);
    let inputs = inputs_encoding(t.inputs);
    let lock_time = u32_le(t.lock_time);
    let b = transaction_encoding(t) + tail;

    // The same bytes, grouped behind each of the four parts in turn.
    let after_inputs = lock_time + tail;
    let after_count = inputs + after_inputs;
    let after_version = count + after_count;
    assert(b == version + count + inputs + after_inputs) by {
        lemma_concat_assoc(version + count + inputs, lock_time, tail);
    }
    assert(b == version + count + after_count) by {
        lemma_concat_assoc(version + count, inputs, after_inputs);
    }
    assert(b == version + after_version) by {
        lemma_concat_assoc(version, count, after_count);
    }

    lemma_u32_le_roundtrip(t.version, after_version);
    assert(u32_from_le(b) == t.version);
    assert(b.skip(4) == after_version) by {
        lemma_concat_skip(version, after_version);
    }
    lemma_compact_size_roundtrip(t.inputs.len() as u64, after_count);
    assert(b.skip(4 + count.len() as int) == after_count) by {
        lemma_concat_skip(version + count, after_count);
    }
    lemma_inputs_roundtrip(t.inputs, after_inputs);
    assert(b.skip(4 + count.len() + inputs.len() as int) == after_inputs) by {
        lemma_concat_skip(version + count + inputs, after_inputs);
    }
    lemma_u32_le_roundtrip(t.lock_time, tail);
}

/// An encoded transaction without its last byte cannot be decoded.
pub proof fn lemma_truncated_transaction_fails(t: TransactionView)
    requires
        t.wf(),
    ensures
        transaction_encoding(t).len() > 0,
        transaction_decoding(transaction_encoding(t).drop_last()) is None,
{
    let version = u32_le(t.version);
    let count = compact_size_encoding(t.inputs.len() as u64);
    let inputs = inputs_encoding(t.inputs);
    let cut = u32_le(t.lock_time).drop_last();
    let b = transaction_encoding(t).drop_last();

    assert(b =~= version + (count + inputs + cut));
    assert(b.skip(4) =~= count + (inputs + cut));
    lemma_compact_size_roundtrip(t.inputs.len() as u64, inputs + cut);

    assert(b.skip(4 + count.len() as int) =~= inputs + cut);
    lemma_inputs_roundtrip(t.inputs, cut);
}

/// The view of every `BitcoinTransaction` is well formed.
pub proof fn lemma_transaction_view_wf(t: BitcoinTransaction)
    ensures
        t@.wf(),
{
    assert(t.inputs@.len() == t.inputs.len());
    assert forall|k: int| 0 <= k < t@.inputs.len() implies (#[trigger] t@.inputs[k]).wf() by {
        crate::input::lemma_input_view_wf(t.inputs@[k]);
    }
}

} // verus!
