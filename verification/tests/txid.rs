use bitcoin_codec::txid::reversed;
use bitcoin_codec::{BitcoinError, Txid};

fn counting() -> [u8; 32] {
    let mut bytes = [0u8; 32];
    for (i, b) in bytes.iter_mut().enumerate() {
        *b = i as u8;
    }
    bytes
}

const COUNTING_HEX: &str = "1f1e1d1c1b1a191817161514131211100f0e0d0c0b0a09080706050403020100";

#[test]
fn reversing_puts_the_last_byte_first() {
    let r = reversed(&counting());
    for i in 0..32 {
        assert_eq!(r[i], (31 - i) as u8);
    }
}

#[test]
fn reversing_twice_changes_nothing() {
    let samples: [[u8; 32]; 4] = [[0u8; 32], [0xFF; 32], counting(), {
        let mut b = [0u8; 32];
        b[0] = 0xAB;
        b[31] = 0xCD;
        b
    }];
    for b in samples {
        assert_eq!(reversed(&reversed(&b)), b);
        assert_eq!(Txid::from_wire_bytes(&Txid(b).to_display_bytes()), Txid(b));
    }
}

#[test]
fn hex_text_is_reversed_and_lowercase() {
    assert_eq!(Txid(counting()).to_hex(), COUNTING_HEX);
    assert_eq!(Txid([0u8; 32]).to_hex(), "00".repeat(32));
    let mut b = [0u8; 32];
    b[0] = 0xAB;
    b[31] = 0xCD;
    let text = Txid(b).to_hex();
    assert_eq!(text.len(), 64);
    assert!(text.starts_with("cd00"));
    assert!(text.ends_with("00ab"));
}

#[test]
fn hex_text_reads_back() {
    assert_eq!(Txid::from_hex(COUNTING_HEX), Ok(Txid(counting())));
    let samples: [[u8; 32]; 3] = [[0u8; 32], [0xFF; 32], counting()];
    for b in samples {
        let id = Txid(b);
        assert_eq!(Txid::from_hex(&id.to_hex()), Ok(id));
    }
}

#[test]
fn uppercase_and_mixed_case_digits_are_read() {
    let upper = COUNTING_HEX.to_uppercase();
    assert_eq!(Txid::from_hex(&upper), Ok(Txid(counting())));
    let mixed = format!("{}{}", &upper[..32], &COUNTING_HEX[32..]);
    assert_eq!(Txid::from_hex(&mixed), Ok(Txid(counting())));
}

#[test]
fn text_of_another_length_is_invalid() {
    assert_eq!(Txid::from_hex(""), Err(BitcoinError::InvalidFormat));
    assert_eq!(Txid::from_hex("00"), Err(BitcoinError::InvalidFormat));
    assert_eq!(
        Txid::from_hex(&"0".repeat(62)),
        Err(BitcoinError::InvalidFormat)
    );
    assert_eq!(
        Txid::from_hex(&"0".repeat(63)),
        Err(BitcoinError::InvalidFormat)
    );
    assert_eq!(
        Txid::from_hex(&"0".repeat(65)),
        Err(BitcoinError::InvalidFormat)
    );
    assert_eq!(
        Txid::from_hex(&"0".repeat(66)),
        Err(BitcoinError::InvalidFormat)
    );
}

#[test]
fn text_with_other_characters_is_invalid() {
    let with_g = format!("{}g", "0".repeat(63));
    assert_eq!(with_g.len(), 64);
    assert_eq!(Txid::from_hex(&with_g), Err(BitcoinError::InvalidFormat));
    let with_space = format!(" {}", "0".repeat(63));
    assert_eq!(Txid::from_hex(&with_space), Err(BitcoinError::InvalidFormat));
    let with_prefix = format!("0x{}", "0".repeat(62));
    assert_eq!(Txid::from_hex(&with_prefix), Err(BitcoinError::InvalidFormat));
}

#[test]
fn text_outside_ascii_is_invalid() {
    // 64 characters, of which the first takes two bytes.
    let chars = format!("\u{e9}{}", "0".repeat(63));
    assert_eq!(chars.chars().count(), 64);
    assert_eq!(Txid::from_hex(&chars), Err(BitcoinError::InvalidFormat));
    // 64 bytes, but 63 characters.
    let bytes = format!("\u{e9}{}", "0".repeat(62));
    assert_eq!(bytes.len(), 64);
    assert_eq!(Txid::from_hex(&bytes), Err(BitcoinError::InvalidFormat));
}
