use b58uuid::{decode_to_uuid, encode_uuid, format_uuid, parse_uuid, CodecError};

#[test]
fn parse_then_format_lowercases() {
    let upper = "550E8400-E29B-41D4-A716-446655440000";
    let b = parse_uuid(upper).unwrap();
    assert_eq!(format_uuid(&b), "550e8400-e29b-41d4-a716-446655440000");
}

#[test]
fn parse_then_format_keeps_canonical_text() {
    for u in [
        "00000000-0000-0000-0000-000000000000",
        "ffffffff-ffff-ffff-ffff-ffffffffffff",
        "550e8400-e29b-41d4-a716-446655440000",
        "123e4567-e89b-12d3-a456-426614174000",
    ] {
        let b = parse_uuid(u).unwrap();
        assert_eq!(format_uuid(&b), u);
    }
}

#[test]
fn parse_accepts_bare_hex_form() {
    let bare = "550e8400e29b41d4a716446655440000";
    let hyphenated = "550e8400-e29b-41d4-a716-446655440000";
    assert_eq!(parse_uuid(bare).unwrap(), parse_uuid(hyphenated).unwrap());
    assert_eq!(format_uuid(&parse_uuid(bare).unwrap()), hyphenated);
}

#[test]
fn parse_extracts_big_endian_bytes() {
    let b = parse_uuid("550e8400-e29b-41d4-a716-446655440000").unwrap();
    assert_eq!(
        b,
        vec![
            0x55, 0x0e, 0x84, 0x00, 0xe2, 0x9b, 0x41, 0xd4, 0xa7, 0x16, 0x44, 0x66, 0x55, 0x44,
            0x00, 0x00
        ]
    );
}

#[test]
fn format_output_is_36_characters() {
    for b in [vec![0u8; 16], vec![0xffu8; 16]] {
        let t = format_uuid(&b);
        assert_eq!(t.chars().count(), 36);
        for (i, c) in t.chars().enumerate() {
            if i == 8 || i == 13 || i == 18 || i == 23 {
                assert_eq!(c, '-');
            } else {
                assert!(c.is_ascii_hexdigit());
                assert!(!c.is_ascii_uppercase());
            }
        }
    }
}

#[test]
fn parse_rejects_malformed_texts() {
    for bad in [
        "",
        "550e8400",
        "550e8400-e29b-41d4-a716-44665544000", // 35 characters
        "550e8400-e29b-41d4-a716-4466554400000", // 37 characters
        "550e840--e29b-41d4-a716-446655440000", // hyphen off its position
        "550e8400be29bb41d4ba716b446655440000", // 36 characters, no hyphens
        "g50e8400-e29b-41d4-a716-446655440000", // not a hex digit
        "550e8400-e29b-41d4-a716-44665544000g",
        "550e8400e29b41d4a71644665544000z",    // bare form, not hex
    ] {
        match encode_uuid(bad) {
            Err(CodecError::InvalidUuidFormat(m)) => assert_eq!(m, bad),
            _ => panic!("expected InvalidUuidFormat for {}", bad),
        }
    }
}

#[test]
fn uppercase_and_lowercase_encode_alike() {
    let lower = encode_uuid("550e8400-e29b-41d4-a716-446655440000").unwrap();
    let upper = encode_uuid("550E8400-E29B-41D4-A716-446655440000").unwrap();
    assert_eq!(lower, upper);
}

#[test]
fn uuid_round_trips_through_base58() {
    for u in [
        "00000000-0000-0000-0000-000000000000",
        "550e8400-e29b-41d4-a716-446655440000",
        "ffffffff-ffff-ffff-ffff-ffffffffffff",
    ] {
        let e = encode_uuid(u).unwrap();
        assert_eq!(decode_to_uuid(&e).unwrap(), u);
    }
}
