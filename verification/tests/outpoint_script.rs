use bitcoin_codec::{BitcoinError, OutPoint, Script, Txid};

fn counting() -> [u8; 32] {
    let mut bytes = [0u8; 32];
    for (i, b) in bytes.iter_mut().enumerate() {
        *b = i as u8;
    }
    bytes
}

#[test]
fn outpoint_new_wraps_the_identifier() {
    let o = OutPoint::new(counting(), 7);
    assert_eq!(o.txid, Txid(counting()));
    assert_eq!(o.vout, 7);
}

#[test]
fn outpoint_bytes_are_reversed_identifier_and_little_endian_index() {
    let bytes = OutPoint::new(counting(), 0x0102_0304).to_bytes();
    assert_eq!(bytes.len(), 36);
    for i in 0..32 {
        assert_eq!(bytes[i], (31 - i) as u8);
    }
    assert_eq!(&bytes[32..], &[0x04, 0x03, 0x02, 0x01]);
}

#[test]
fn outpoint_reads_back_with_36_consumed() {
    let samples = [
        OutPoint::new([0u8; 32], 0),
        OutPoint::new(counting(), 1),
        OutPoint::new([0xFF; 32], u32::MAX),
        OutPoint::new(counting(), 0x8000_0001),
    ];
    for o in samples {
        assert_eq!(OutPoint::from_bytes(&o.to_bytes()), Ok((o, 36)));
    }
}

#[test]
fn outpoint_decoder_leaves_what_follows() {
    let o = OutPoint::new(counting(), 9);
    let mut bytes = o.to_bytes();
    bytes.extend_from_slice(&[0xAA, 0xBB, 0xCC]);
    assert_eq!(OutPoint::from_bytes(&bytes), Ok((o, 36)));
}

#[test]
fn outpoint_of_fewer_than_36_bytes_is_insufficient() {
    let bytes = OutPoint::new(counting(), 9).to_bytes();
    for len in [0usize, 1, 31, 32, 35] {
        assert_eq!(
            OutPoint::from_bytes(&bytes[..len]),
            Err(BitcoinError::InsufficientBytes)
        );
    }
}

#[test]
fn script_bytes_are_length_and_content() {
    assert_eq!(Script::new(vec![]).to_bytes(), vec![0x00]);
    assert_eq!(Script::new(vec![0xAB]).to_bytes(), vec![0x01, 0xAB]);
    assert_eq!(
        Script::new(vec![0x76, 0xA9, 0x14]).to_bytes(),
        vec![0x03, 0x76, 0xA9, 0x14]
    );
}

#[test]
fn script_length_prefix_changes_form_at_the_class_bounds() {
    let cases: [(usize, Vec<u8>); 6] = [
        (0, vec![0x00]),
        (1, vec![0x01]),
        (252, vec![0xFC]),
        (253, vec![0xFD, 0xFD, 0x00]),
        (65535, vec![0xFD, 0xFF, 0xFF]),
        (65536, vec![0xFE, 0x00, 0x00, 0x01, 0x00]),
    ];
    for (len, prefix) in cases {
        let content: Vec<u8> = (0..len).map(|i| (i % 251) as u8).collect();
        let bytes = Script::new(content.clone()).to_bytes();
        assert_eq!(bytes.len(), prefix.len() + len);
        assert_eq!(&bytes[..prefix.len()], &prefix[..]);
        assert_eq!(&bytes[prefix.len()..], &content[..]);
    }
}

#[test]
fn script_reads_back_at_the_class_bounds() {
    for len in [0usize, 1, 252, 253, 65535, 65536] {
        let content: Vec<u8> = (0..len).map(|i| (i % 251) as u8).collect();
        let script = Script::new(content);
        let bytes = script.to_bytes();
        let consumed = bytes.len();
        assert_eq!(Script::from_bytes(&bytes), Ok((script, consumed)));
    }
}

#[test]
fn script_decoder_leaves_what_follows() {
    assert_eq!(
        Script::from_bytes(&[0x02, 0xAA, 0xBB, 0xCC, 0xDD]),
        Ok((Script::new(vec![0xAA, 0xBB]), 3))
    );
    assert_eq!(
        Script::from_bytes(&[0xFD, 0x01, 0x00, 0xAA, 0xBB]),
        Ok((Script::new(vec![0xAA]), 4))
    );
}

#[test]
fn script_without_its_length_is_insufficient() {
    assert_eq!(Script::from_bytes(&[]), Err(BitcoinError::InsufficientBytes));
    assert_eq!(
        Script::from_bytes(&[0xFD, 0x01]),
        Err(BitcoinError::InsufficientBytes)
    );
}

#[test]
fn script_shorter_than_its_length_is_insufficient() {
    assert_eq!(
        Script::from_bytes(&[0x03, 0xAA, 0xBB]),
        Err(BitcoinError::InsufficientBytes)
    );
    assert_eq!(Script::from_bytes(&[0x01]), Err(BitcoinError::InsufficientBytes));
    let mut bytes = Script::new(vec![7u8; 300]).to_bytes();
    bytes.pop();
    assert_eq!(Script::from_bytes(&bytes), Err(BitcoinError::InsufficientBytes));
}

#[test]
fn script_with_a_length_beyond_any_buffer_is_insufficient() {
    let mut bytes = vec![0xFFu8; 9];
    bytes.extend_from_slice(&[1, 2, 3]);
    assert_eq!(Script::from_bytes(&bytes), Err(BitcoinError::InsufficientBytes));
    let bytes = [0xFE, 0xFF, 0xFF, 0xFF, 0xFF, 0x00];
    assert_eq!(Script::from_bytes(&bytes), Err(BitcoinError::InsufficientBytes));
}

#[test]
fn script_content_can_be_read() {
    let script = Script::new(vec![1, 2, 3]);
    assert_eq!(script.as_bytes(), &[1, 2, 3]);
    assert_eq!(script.as_bytes().len(), 3);
    assert!(Script::new(vec![]).as_bytes().is_empty());
}
