use lava_relay::crypto::{
    assemble_recoverable_signature, public_key_bytes, public_key_to_address, sign_data,
    signing_key_from_hex, CryptoError,
};

const KEY_ONE_HEX: &str = "0000000000000000000000000000000000000000000000000000000000000001";
const PUB_ONE_HEX: &str = "0279be667ef9dcbbac55a06295ce870b07029bfcdb2dce28d959f2815b16f81798";

fn hex_to_bytes(s: &str) -> Vec<u8> {
    hex::decode(s).unwrap()
}

#[test]
fn invalid_hex_is_rejected() {
    assert!(matches!(signing_key_from_hex("zz"), Err(CryptoError::InvalidKeyEncoding)));
    assert!(matches!(signing_key_from_hex("abc"), Err(CryptoError::InvalidKeyEncoding)));
    assert!(matches!(signing_key_from_hex(""), Err(CryptoError::InvalidKeyEncoding)));
}

#[test]
fn out_of_range_keys_are_rejected() {
    // A zero scalar is not a valid signing key.
    let zeros = "00".repeat(32);
    assert!(matches!(signing_key_from_hex(&zeros), Err(CryptoError::InvalidKeyEncoding)));
    // Far too long for a scalar.
    let long = "ab".repeat(40);
    assert!(matches!(signing_key_from_hex(&long), Err(CryptoError::InvalidKeyEncoding)));
}

#[test]
fn valid_key_parses_and_exposes_its_public_key() {
    let key = signing_key_from_hex(KEY_ONE_HEX).ok().unwrap();
    let pk = public_key_bytes(&key);
    assert_eq!(pk, hex_to_bytes(PUB_ONE_HEX));
}

#[test]
fn signature_layout_is_recovery_byte_then_raw_signature() {
    let key = signing_key_from_hex(KEY_ONE_HEX).ok().unwrap();
    let sig = sign_data(b"hello", &key).ok().unwrap();
    assert_eq!(sig.len(), 65);
    assert!(sig[0] >= 27 && sig[0] <= 30);
    // Deterministic nonces: the same data and key sign identically.
    let again = sign_data(b"hello", &key).ok().unwrap();
    assert_eq!(sig, again);
    let other = sign_data(b"hellp", &key).ok().unwrap();
    assert_ne!(sig, other);
}

#[test]
fn assemble_signature_prepends_recovery_byte() {
    let rs = vec![5u8; 4];
    assert_eq!(assemble_recoverable_signature(1, &rs), vec![28, 5, 5, 5, 5]);
}

#[test]
fn known_public_key_derives_the_fixed_address() {
    let addr = public_key_to_address(&hex_to_bytes(PUB_ONE_HEX), "lava@").ok().unwrap();
    assert_eq!(addr, "lava@1w508d6qejxtdg4y5r3zarvary0c5xw7kz9qlg4");
    // Deterministic: deriving again yields the identical address.
    let again = public_key_to_address(&hex_to_bytes(PUB_ONE_HEX), "lava@").ok().unwrap();
    assert_eq!(addr, again);
}

#[test]
fn address_derivation_follows_the_parsed_key() {
    let key = signing_key_from_hex(KEY_ONE_HEX).ok().unwrap();
    let pk = public_key_bytes(&key);
    let addr = public_key_to_address(&pk, "lava@").ok().unwrap();
    assert_eq!(addr, "lava@1w508d6qejxtdg4y5r3zarvary0c5xw7kz9qlg4");
}
