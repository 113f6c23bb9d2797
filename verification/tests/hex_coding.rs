use merit_rpc::hex::{hex_decode, hex_encode};

#[test]
fn hex_round_trip_key_and_header() {
    let key: Vec<u8> = (0u8..32).collect();
    let encoded = hex_encode(&key);
    assert_eq!(encoded.len(), 64);
    let decoded = hex_decode(&encoded).expect("encoded key must decode");
    assert_eq!(decoded, key);

    let header = vec![0u8, 255, 26, 3, 128];
    let encoded = hex_encode(&header);
    let decoded = hex_decode(&encoded).expect("encoded header must decode");
    assert_eq!(decoded, header);
}

#[test]
fn hex_encode_exact_text() {
    assert_eq!(hex_encode(&[0x00, 0xff, 0x1a]), b"00ff1a".to_vec());
    assert_eq!(hex_encode(&[]), Vec::<u8>::new());
}

#[test]
fn hex_decode_accepts_both_cases() {
    assert_eq!(hex_decode(b"00FF1a").unwrap(), vec![0x00, 0xff, 0x1a]);
    assert_eq!(hex_decode(b"ABCDEF").unwrap(), vec![0xab, 0xcd, 0xef]);
}

#[test]
fn hex_decode_rejects_odd_length() {
    assert!(hex_decode(b"abc").is_none());
    assert!(hex_decode(b"0").is_none());
}

#[test]
fn hex_decode_rejects_non_digits() {
    assert!(hex_decode(b"zz").is_none());
    assert!(hex_decode(b"0g").is_none());
    assert!(hex_decode(b"12 4").is_none());
}

#[test]
fn hex_decode_empty_is_empty() {
    assert_eq!(hex_decode(b"").unwrap(), Vec::<u8>::new());
}
