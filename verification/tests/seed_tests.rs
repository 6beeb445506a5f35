use seedgen::decimal::i64_to_decimal;
use seedgen::hex::bytes_to_hex;
use seedgen::seed::{derive_seed, generate_seed};
use seedgen::text::chars_to_string;

#[test]
fn short_phrase_is_rejected() {
    let r = derive_seed("short", 1_700_000_000, "test-device");
    match r {
        Ok(_) => panic!("a five-character phrase must be rejected"),
        Err(e) => assert_eq!(e.actual, 5),
    }
}

#[test]
fn empty_phrase_is_rejected() {
    let r = derive_seed("", 0, "test-device");
    match r {
        Ok(_) => panic!("an empty phrase must be rejected"),
        Err(e) => assert_eq!(e.actual, 0),
    }
}

#[test]
fn seventeen_character_phrase_is_rejected() {
    let r = derive_seed("abcdefghijklmnopq", 1_700_000_000, "test-device");
    match r {
        Ok(_) => panic!("a seventeen-character phrase must be rejected"),
        Err(e) => assert_eq!(e.actual, 17),
    }
}

#[test]
fn known_vector_matches() {
    let r = derive_seed("abcdefghijklmnop", 1_700_000_000, "test-device").unwrap();
    assert_eq!(
        r,
        "b7e309cd1b226fb3ac60b784796f292cbb8e50b999e54228967e3692896fef6c"
    );
}

#[test]
fn seed_is_64_lowercase_hex_chars() {
    let r = derive_seed("0123456789abcdef", 123, "some-device").unwrap();
    assert_eq!(r.chars().count(), 64);
    assert!(r.chars().all(|c| c.is_ascii_hexdigit() && !c.is_ascii_uppercase()));
}

#[test]
fn phrase_length_counts_characters_not_bytes() {
    // Sixteen two-byte characters: accepted by character count.
    let phrase: String = std::iter::repeat('\u{03b1}').take(16).collect();
    assert_eq!(phrase.len(), 32);
    assert!(derive_seed(&phrase, 0, "fp").is_ok());
    // Eight of them are sixteen bytes but only eight characters: rejected.
    let eight: String = std::iter::repeat('\u{03b1}').take(8).collect();
    assert_eq!(eight.len(), 16);
    match derive_seed(&eight, 0, "fp") {
        Ok(_) => panic!("eight characters must be rejected"),
        Err(e) => assert_eq!(e.actual, 8),
    }
}

#[test]
fn adjacent_seconds_give_different_seeds() {
    let a = derive_seed("abcdefghijklmnop", 1_700_000_000, "test-device").unwrap();
    let b = derive_seed("abcdefghijklmnop", 1_700_000_001, "test-device").unwrap();
    assert_ne!(a, b);
}

#[test]
fn same_inputs_give_the_same_seed() {
    let a = derive_seed("abcdefghijklmnop", 42, "dev").unwrap();
    let b = derive_seed("abcdefghijklmnop", 42, "dev").unwrap();
    assert_eq!(a, b);
}

#[test]
fn negative_timestamp_is_derived() {
    let a = derive_seed("abcdefghijklmnop", -1, "dev").unwrap();
    let b = derive_seed("abcdefghijklmnop", 1, "dev").unwrap();
    assert_eq!(a.chars().count(), 64);
    assert_ne!(a, b);
}

#[test]
fn generate_seed_uses_the_clock() {
    let r = generate_seed("abcdefghijklmnop", "test-device").unwrap();
    assert_eq!(r.chars().count(), 64);
    assert!(r.chars().all(|c| c.is_ascii_hexdigit() && !c.is_ascii_uppercase()));
}

#[test]
fn generate_seed_rejects_wrong_length() {
    match generate_seed("short", "test-device") {
        Ok(_) => panic!("a five-character phrase must be rejected"),
        Err(e) => assert_eq!(e.actual, 5),
    }
}

#[test]
fn hex_rendering_is_exact() {
    let v: Vec<u8> = vec![0x00, 0xff, 0x1a];
    assert_eq!(chars_to_string(&bytes_to_hex(&v)), "00ff1a");
    let empty: Vec<u8> = vec![];
    assert_eq!(chars_to_string(&bytes_to_hex(&empty)), "");
}

#[test]
fn decimal_rendering_is_exact() {
    assert_eq!(chars_to_string(&i64_to_decimal(0)), "0");
    assert_eq!(chars_to_string(&i64_to_decimal(1_700_000_000)), "1700000000");
    assert_eq!(chars_to_string(&i64_to_decimal(-42)), "-42");
    assert_eq!(chars_to_string(&i64_to_decimal(i64::MAX)), "9223372036854775807");
    assert_eq!(chars_to_string(&i64_to_decimal(i64::MIN)), "-9223372036854775808");
}
