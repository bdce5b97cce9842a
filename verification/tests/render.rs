use bitcoin_codec::render::push_decimal;
use bitcoin_codec::{BitcoinTransaction, OutPoint, Script, TransactionInput};

fn counting() -> [u8; 32] {
    let mut bytes = [0u8; 32];
    for (i, b) in bytes.iter_mut().enumerate() {
        *b = i as u8;
    }
    bytes
}

fn decimal(n: u64) -> String {
    let mut out = String::new();
    push_decimal(&mut out, n);
    out
}

#[test]
fn decimal_digits_have_no_leading_zero() {
    assert_eq!(decimal(0), "0");
    assert_eq!(decimal(7), "7");
    assert_eq!(decimal(9), "9");
    assert_eq!(decimal(10), "10");
    assert_eq!(decimal(120), "120");
    assert_eq!(decimal(1_000_000), "1000000");
    assert_eq!(decimal(4_294_967_295), "4294967295");
    assert_eq!(decimal(u64::MAX), "18446744073709551615");
}

#[test]
fn decimal_digits_go_behind_what_is_there() {
    let mut out = String::from("n=");
    push_decimal(&mut out, 305);
    push_decimal(&mut out, 0);
    assert_eq!(out, "n=3050");
}

#[test]
fn transaction_without_inputs_renders_three_lines_and_a_brace() {
    let t = BitcoinTransaction::new(2, vec![], 500000);
    assert_eq!(
        t.render(),
        "BitcoinTransaction {\n  version: 2\n  lock_time: 500000\n  inputs [0]:\n}"
    );
}

#[test]
fn simplest_transaction_renders_one_input_line() {
    let t = BitcoinTransaction::new(
        1,
        vec![TransactionInput::new(
            OutPoint::new([0u8; 32], 0),
            Script::new(vec![]),
            0xFFFF_FFFF,
        )],
        0,
    );
    let expected = format!(
        "BitcoinTransaction {{\n  version: 1\n  lock_time: 0\n  inputs [1]:\n    [0] outpoint: {}:0 script_sig:  sequence: 4294967295\n}}",
        "0".repeat(64)
    );
    assert_eq!(t.render(), expected);
}

#[test]
fn inputs_render_in_order_with_display_order_identifiers() {
    let mut second = [0u8; 32];
    second[0] = 0xAB;
    let t = BitcoinTransaction::new(
        4294967295,
        vec![
            TransactionInput::new(
                OutPoint::new(counting(), 12),
                Script::new(vec![0x00, 0x0F, 0xF0, 0xFF]),
                1,
            ),
            TransactionInput::new(OutPoint::new(second, 4294967295), Script::new(vec![0x51]), 0),
        ],
        10,
    );
    let expected = "BitcoinTransaction {\n  version: 4294967295\n  lock_time: 10\n  inputs [2]:\n    \
        [0] outpoint: 1f1e1d1c1b1a191817161514131211100f0e0d0c0b0a09080706050403020100:12 \
        script_sig: 000ff0ff sequence: 1\n    \
        [1] outpoint: 00000000000000000000000000000000000000000000000000000000000000ab:4294967295 \
        script_sig: 51 sequence: 0\n}";
    assert_eq!(t.render(), expected);
}

#[test]
fn rendering_numbers_inputs_past_nine() {
    let inputs: Vec<TransactionInput> = (0..12u32)
        .map(|v| TransactionInput::new(OutPoint::new([0u8; 32], v), Script::new(vec![]), v))
        .collect();
    let text = BitcoinTransaction::new(1, inputs, 0).render();
    let lines: Vec<&str> = text.split('\n').collect();
    assert_eq!(lines.len(), 4 + 12 + 1);
    assert_eq!(lines[3], "  inputs [12]:");
    assert_eq!(
        lines[4 + 11],
        format!("    [11] outpoint: {}:11 script_sig:  sequence: 11", "0".repeat(64))
    );
    assert_eq!(lines[16], "}");
}
