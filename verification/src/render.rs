//! A transaction as text for people to read. Nothing reads it back.

use crate::hex_text::{hex_encode, hex_encoding};
use crate::input::{InputView, TransactionInput};
use crate::transaction::{input_views, BitcoinTransaction, TransactionView};
use crate::txid::txid_hex;
use vstd::prelude::*;
use vstd::string::*;

verus! {

/// The character for a number below ten.
pub open spec fn decimal_digit(d: int) -> char {
    seq!['0', '1', '2', '3', '4', '5', '6', '7', '8', '9'][d]
}

/// `n` in decimal digits, without leading zeros.
pub open spec fn decimal(n: nat) -> Seq<char>
    decreases n,
{
    if n < 10 {
        seq![decimal_digit(n as int)]
    } else {
        decimal(n / 10).push(decimal_digit((n % 10) as int))
    }
}

/// The line for the input at place `index`, with its line end.
pub open spec fn input_line(index: nat, i: InputView) -> Seq<char> {
    "    ["@ + decimal(index) + "] outpoint: "@ + txid_hex(i.previous_output.txid) + ":"@
        + decimal(i.previous_output.vout as nat) + " script_sig: "@ + hex_encoding(i.script_sig)
        + " sequence: "@ + decimal(i.sequence as nat) + "\n"@
}

/// The lines of a run of inputs, which are counted from zero.
pub open spec fn input_lines(inputs: Seq<InputView>) -> Seq<char>
    decreases inputs.len(),
{
    if inputs.len() == 0 {
        Seq::empty()
    } else {
        input_lines(inputs.drop_last()) + input_line((inputs.len() - 1) as nat, inputs.last())
    }
}

/// The text of a transaction: a heading, the version, the lock time, the
/// number of inputs, one line for each input, and a closing brace without a
/// line end. Identifiers stand in display order.
pub open spec fn rendering(t: TransactionView) -> Seq<char> {
    "BitcoinTransaction {\n"@ + "  version: "@ + decimal(t.version as nat) + "\n"@
        + "  lock_time: "@ + decimal(t.lock_time as nat) + "\n"@ + "  inputs ["@ + decimal(
        t.inputs.len(),
    ) + "]:\n"@ + input_lines(t.inputs) + "}"@
}

fn digit_text(d: u64) -> (text: &'static str)
    requires
        d < 10,
    ensures
        text@ == seq![decimal_digit(d as int)],
{
    proof {
        reveal_strlit("0");
        reveal_strlit("1");
        reveal_strlit("2");
        reveal_strlit("3");
        reveal_strlit("4");
        reveal_strlit("5");
        reveal_strlit("6");
        reveal_strlit("7");
        reveal_strlit("8");
        reveal_strlit("9");
    }
    let text: &'static str = if d == 0 {
        "0"
    } else if d == 1 {
        "1"
    } else if d == 2 {
        "2"
    } else if d == 3 {
        "3"
    } else if d == 4 {
        "4"
    } else if d == 5 {
        "5"
    } else if d == 6 {
        "6"
    } else if d == 7 {
        "7"
    } else if d == 8 {
        "8"
    } else {
        "9"
    };
    assert(text@ =~= seq![decimal_digit(d as int)]);
    text
}

/// Appends `n` in decimal digits to `out`.
pub fn push_decimal(out: &mut String, n: u64)
    ensures
        final(out)@ == old(out)@ + decimal(n as nat),
    decreases n,
{
    if n >= 10 {
        push_decimal(out, n / 10);
    }
    out.append(digit_text(n % 10));
    assert(out@ =~= old(out)@ + decimal(n as nat));
}

fn render_input(index: usize, input: &TransactionInput) -> (line: String)
    ensures
        line@ == input_line(index as nat, input@),
{
    let txid: String = input.previous_output.txid.to_hex();
    let script: String = hex_encode(input.script_sig.as_bytes());

    let mut line: String = String::from_str("    [");
    push_decimal(&mut line, index as u64);
    line.append("] outpoint: ");
    line.append(txid.as_str());
    line.append(":");
    push_decimal(&mut line, input.previous_output.vout as u64);
    line.append(" script_sig: ");
    line.append(script.as_str());
    line.append(" sequence: ");
    push_decimal(&mut line, input.sequence as u64);
    line.append("\n");
    line
}

impl BitcoinTransaction {
    /// The transaction as text of several lines.
    pub fn render(&self) -> (text: String)
        ensures
            text@ == rendering(self@),
    {
        let mut text: String = String::from_str("BitcoinTransaction {\n");
        text.append("  version: ");
        push_decimal(&mut text, self.version as u64);
        text.append("\n");
        text.append("  lock_time: ");
        push_decimal(&mut text, self.lock_time as u64);
        text.append("\n");
        text.append("  inputs [");
        push_decimal(&mut text, self.inputs.len() as u64);
        text.append("]:\n");

        let ghost heading = text@;
        let ghost views = input_views(self.inputs@);
        let mut k: usize = 0;
        while k < self.inputs.len()
            invariant
                k <= self.inputs@.len(),
                views == input_views(self.inputs@),
                text@ == heading + input_lines(views.take(k as int)),
            decreases self.inputs@.len() - k,
        {
            let line: String = render_input(k, &self.inputs[k]);
            text.append(line.as_str());
            proof {
                let next = views.take(k + 1);
                assert(next.drop_last() =~= views.take(k as int));
                assert(next.last() == self.inputs@[k as int]@);
                assert(text@ =~= heading + input_lines(next));
            }
            k += 1;
        }
        assert(views.take(k as int) =~= views);
        text.append("}");
        text
    }
}

} // verus!
