use b58uuid::{char_is_b58, decode_bytes, decode_to_uuid, encode_bytes, encode_uuid, CodecError};

const FIXTURE_UUID: &str = "550e8400-e29b-41d4-a716-446655440000";
const FIXTURE_B58: &str = "BWBeN28Vb7cMEx7Ym8AUzs";

#[test]
fn known_fixture_encodes() {
    assert_eq!(encode_uuid(FIXTURE_UUID).unwrap(), FIXTURE_B58);
}

#[test]
fn known_fixture_decodes() {
    assert_eq!(decode_to_uuid(FIXTURE_B58).unwrap(), FIXTURE_UUID);
}

#[test]
fn zero_buffer_encodes_to_padded_ones() {
    let b = vec![0u8; 16];
    assert_eq!(encode_bytes(&b), "1111111111111111111111");
}

#[test]
fn one_encodes_fixed_width() {
    let mut b = vec![0u8; 16];
    b[15] = 1;
    assert_eq!(encode_bytes(&b), "1111111111111111111112");
    assert_eq!(
        decode_to_uuid("1111111111111111111112").unwrap(),
        "00000000-0000-0000-0000-000000000001"
    );
}

#[test]
fn max_buffer_round_trips() {
    let b = vec![0xffu8; 16];
    let e = encode_bytes(&b);
    assert_eq!(e, "YcVfxkQb6JRzqk5kF2tNLv");
    assert_eq!(decode_bytes(&e).unwrap(), b);
    assert_eq!(
        decode_to_uuid(&e).unwrap(),
        "ffffffff-ffff-ffff-ffff-ffffffffffff"
    );
}

#[test]
fn encode_output_is_fixed_width_and_in_alphabet() {
    let buffers: Vec<Vec<u8>> = vec![
        vec![0u8; 16],
        vec![0xffu8; 16],
        vec![
            0x55, 0x0e, 0x84, 0x00, 0xe2, 0x9b, 0x41, 0xd4, 0xa7, 0x16, 0x44, 0x66, 0x55, 0x44,
            0x00, 0x00,
        ],
        vec![0, 0, 0, 0, 0, 0, 0, 0, 0, 0, 0, 0, 0, 0, 1, 7],
    ];
    for b in buffers {
        let e = encode_bytes(&b);
        assert_eq!(e.chars().count(), 22);
        for c in e.chars() {
            assert!(char_is_b58(c));
            assert!(c != '0' && c != 'O' && c != 'I' && c != 'l');
        }
    }
}

#[test]
fn decode_of_encode_returns_buffer() {
    let buffers: Vec<Vec<u8>> = vec![
        vec![0u8; 16],
        vec![0xffu8; 16],
        vec![1, 2, 3, 4, 5, 6, 7, 8, 9, 10, 11, 12, 13, 14, 15, 16],
        vec![0, 0, 0, 0, 0, 0, 0, 0, 0, 0, 0, 0, 0, 0, 0, 9],
    ];
    for b in buffers {
        let e = encode_bytes(&b);
        assert_eq!(decode_bytes(&e).unwrap(), b);
    }
}

#[test]
fn decode_rejects_wrong_length() {
    let short = "BWBeN28Vb7cMEx7Ym8AUz"; // 21 characters
    let long = "BWBeN28Vb7cMEx7Ym8AUzss"; // 23 characters
    assert!(matches!(
        decode_bytes(short),
        Err(CodecError::InvalidB58Format(_))
    ));
    assert!(matches!(
        decode_bytes(long),
        Err(CodecError::InvalidB58Format(_))
    ));
    assert!(matches!(
        decode_bytes(""),
        Err(CodecError::InvalidB58Format(_))
    ));
}

#[test]
fn decode_rejects_excluded_characters() {
    for bad in [
        "0WBeN28Vb7cMEx7Ym8AUzs",
        "OWBeN28Vb7cMEx7Ym8AUzs",
        "IWBeN28Vb7cMEx7Ym8AUzs",
        "lWBeN28Vb7cMEx7Ym8AUzs",
        "BWBeN28Vb7cMEx7Ym8AUz!",
        "BWBeN28Vb7cMEx7Ym8AUz-",
    ] {
        match decode_bytes(bad) {
            Err(CodecError::InvalidB58Format(m)) => assert_eq!(m, bad),
            _ => panic!("expected InvalidB58Format for {}", bad),
        }
    }
}

#[test]
fn decode_rejects_overflow() {
    let all_z = "zzzzzzzzzzzzzzzzzzzzzz"; // 22 times the greatest digit
    match decode_bytes(all_z) {
        Err(CodecError::ValueOverflow(m)) => assert_eq!(&m, all_z),
        _ => panic!("expected ValueOverflow"),
    }
    assert!(matches!(
        decode_to_uuid(all_z),
        Err(CodecError::ValueOverflow(_))
    ));
}

#[test]
fn decode_rejects_first_value_past_128_bits() {
    // One step past the encoding of the all-ones buffer: its value is
    // exactly 2^128.
    assert!(matches!(
        decode_bytes("YcVfxkQb6JRzqk5kF2tNLw"),
        Err(CodecError::ValueOverflow(_))
    ));
}

#[test]
fn error_carries_offending_input() {
    let e = decode_bytes("not-base58").unwrap_err();
    assert_eq!(e.input().as_str(), "not-base58");
    let e = encode_uuid("not-a-uuid").unwrap_err();
    assert_eq!(e.input().as_str(), "not-a-uuid");
}
