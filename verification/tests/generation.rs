use std::collections::HashSet;

use b58uuid::{char_is_b58, decode_to_uuid, generate, generate_uuid, parse_uuid};

#[test]
fn generated_values_are_valid_and_distinct() {
    let mut seen: HashSet<String> = HashSet::new();
    for _ in 0..10_000 {
        let g = generate();
        assert_eq!(g.chars().count(), 22);
        for c in g.chars() {
            assert!(char_is_b58(c));
        }
        assert!(seen.insert(g));
    }
}

#[test]
fn generated_values_decode() {
    for _ in 0..100 {
        let g = generate();
        assert!(decode_to_uuid(&g).is_ok());
    }
}

#[test]
fn generated_uuids_are_version_4() {
    for _ in 0..100 {
        let u = generate_uuid();
        assert_eq!(u.chars().count(), 36);
        let chars: Vec<char> = u.chars().collect();
        assert_eq!(chars[14], '4');
        assert!(matches!(chars[19], '8' | '9' | 'a' | 'b'));
        assert!(parse_uuid(&u).is_ok());
    }
}
