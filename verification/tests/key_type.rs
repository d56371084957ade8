use aml_transfer::state::{parse_key_type, KeyType};

#[test]
fn secp256k1_aliases_share_one_name() {
    assert_eq!(parse_key_type("K256"), Some("secp256k1"));
    assert_eq!(parse_key_type("ecdsa"), Some("secp256k1"));
    assert_eq!(parse_key_type("secp256k1"), Some("secp256k1"));
    assert_eq!(parse_key_type("k256"), Some("secp256k1"));
    assert_eq!(parse_key_type("ECDSA"), Some("secp256k1"));
    assert_eq!(parse_key_type("Secp256K1"), Some("secp256k1"));
}

#[test]
fn ed25519_aliases_share_the_other_name() {
    assert_eq!(parse_key_type("ED"), Some("ed25519"));
    assert_eq!(parse_key_type("ed25519"), Some("ed25519"));
    assert_eq!(parse_key_type("ed"), Some("ed25519"));
    assert_eq!(parse_key_type("Ed25519"), Some("ed25519"));
}

#[test]
fn other_texts_name_no_algorithm() {
    assert_eq!(parse_key_type(""), None);
    assert_eq!(parse_key_type("rsa"), None);
    assert_eq!(parse_key_type("secp256k1 "), None);
    assert_eq!(parse_key_type(" ed"), None);
    assert_eq!(parse_key_type("secp256r1"), None);
    assert_eq!(parse_key_type("ed25519ph"), None);
    assert_eq!(parse_key_type("e"), None);
}

#[test]
fn typed_parse_agrees_with_the_names() {
    assert_eq!(KeyType::parse("K256"), Some(KeyType::Secp256k1));
    assert_eq!(KeyType::parse("ED"), Some(KeyType::Ed25519));
    assert_eq!(KeyType::parse("dsa"), None);
    assert_eq!(KeyType::Secp256k1.as_str(), "secp256k1");
    assert_eq!(KeyType::Ed25519.as_str(), "ed25519");
}

#[test]
fn lookup_of_lower_case_aliases_is_exact() {
    assert_eq!(KeyType::from_lowercase("k256"), Some(KeyType::Secp256k1));
    assert_eq!(KeyType::from_lowercase("ecdsa"), Some(KeyType::Secp256k1));
    assert_eq!(KeyType::from_lowercase("secp256k1"), Some(KeyType::Secp256k1));
    assert_eq!(KeyType::from_lowercase("ed"), Some(KeyType::Ed25519));
    assert_eq!(KeyType::from_lowercase("ed25519"), Some(KeyType::Ed25519));
    assert_eq!(KeyType::from_lowercase("K256"), None);
    assert_eq!(KeyType::from_lowercase("ED"), None);
}

#[test]
fn canonical_names_read_back() {
    for key_type in [KeyType::Secp256k1, KeyType::Ed25519] {
        assert_eq!(KeyType::parse(key_type.as_str()), Some(key_type));
        assert_eq!(parse_key_type(key_type.as_str()), Some(key_type.as_str()));
    }
}

#[test]
fn letter_case_follows_unicode() {
    // U+212A, the Kelvin sign, has the letter k as its lower case
    assert_eq!(parse_key_type("\u{212a}256"), Some("secp256k1"));
}
