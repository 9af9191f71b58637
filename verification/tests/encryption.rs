use base64::Engine;
use magic_crypt::MagicCryptTrait;
use ring_core::encryption::{generate_key, CredentialEncryption};

fn b64(bytes: &[u8]) -> String {
    base64::engine::general_purpose::STANDARD.encode(bytes)
}

#[test]
fn keys_are_32_bytes() {
    assert_eq!(generate_key().len(), 32);
    assert_ne!(generate_key(), generate_key());
}

#[test]
fn round_trip() {
    let enc = CredentialEncryption::with_key(vec![7u8; 32]);
    for text in ["", "sk-SECRET-REDACTED", "密钥 with ünïcode"] {
        let c = enc.encrypt(text);
        assert_eq!(enc.decrypt(&c), Some(text.to_string()));
    }
}

#[test]
fn ciphertexts_are_versioned_and_fresh() {
    let enc = CredentialEncryption::with_key(vec![1u8; 32]);
    let a = enc.encrypt("same");
    let b = enc.encrypt("same");
    assert_ne!(a, b);
    let raw = base64::engine::general_purpose::STANDARD.decode(&a).unwrap();
    assert_eq!(raw[0], 1);
    assert_eq!(raw.len(), 1 + 12 + 4 + 16);
}

#[test]
fn bad_ciphertexts_are_rejected() {
    let enc = CredentialEncryption::with_key(vec![2u8; 32]);
    assert_eq!(enc.decrypt("%%% not base64"), None);
    assert_eq!(enc.decrypt(""), None);
    assert_eq!(enc.decrypt(&b64(&[1, 2, 3])), None);
    let c = enc.encrypt("hello");
    let mut raw = base64::engine::general_purpose::STANDARD.decode(&c).unwrap();
    let last = raw.len() - 1;
    raw[last] ^= 0xff;
    assert_eq!(enc.decrypt(&b64(&raw)), None);
    let other = CredentialEncryption::with_key(vec![3u8; 32]);
    assert_eq!(other.decrypt(&c), None);
}

#[test]
fn legacy_ciphertexts_still_decrypt() {
    let key = vec![9u8; 32];
    let enc = CredentialEncryption::with_key(key.clone());
    let legacy = magic_crypt::MagicCrypt256::new(b64(&key), None::<String>);
    let c = legacy.encrypt_str_to_base64("old secret");
    let first = base64::engine::general_purpose::STANDARD.decode(&c).unwrap()[0];
    if first != 1 {
        assert_eq!(enc.decrypt(&c), Some("old secret".to_string()));
    }
}

#[test]
fn stored_keys() {
    let (enc, written) = CredentialEncryption::from_stored(None);
    let w = written.expect("a new key is written");
    assert_eq!(base64::engine::general_purpose::STANDARD.decode(&w).unwrap().len(), 32);
    let c = enc.encrypt("x");
    let (again, none) = CredentialEncryption::from_stored(Some(Some(&w)));
    assert!(none.is_none());
    assert_eq!(again.decrypt(&c), Some("x".to_string()));
    let (fresh, none) = CredentialEncryption::from_stored(Some(Some("!!bad!!")));
    assert!(none.is_none());
    assert_eq!(fresh.decrypt(&c), None);
    let (_, none) = CredentialEncryption::from_stored(Some(None));
    assert!(none.is_none());
}

#[test]
fn framing_counts_utf8_bytes() {
    let enc = CredentialEncryption::with_key(vec![4u8; 32]);
    let c = enc.encrypt("密钥");
    let raw = base64::engine::general_purpose::STANDARD.decode(&c).unwrap();
    assert_eq!(raw[0], 1);
    assert_eq!(raw.len(), 1 + 12 + "密钥".len() + 16);
}
