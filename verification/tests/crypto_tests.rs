use smarthub::crypto::{Crypto, CryptoError, NONCE_LEN, TAG_LEN};

const ZERO_KEY: &str = "AAAAAAAAAAAAAAAAAAAAAAAAAAAAAAAAAAAAAAAAAAA=";

#[test]
fn round_trip_bytes() {
    let (c, _) = Crypto::generate();
    let blob = c.encrypt(b"some secret bytes").unwrap();
    assert_eq!(blob.len(), NONCE_LEN + 17 + TAG_LEN);
    assert_ne!(&blob[NONCE_LEN..NONCE_LEN + 17], b"some secret bytes");
    assert_eq!(c.decrypt(&blob).unwrap(), b"some secret bytes".to_vec());
}

#[test]
fn round_trip_text() {
    let (c, _) = Crypto::generate();
    let blob = c.encrypt_str("héllo wörld ✓").unwrap();
    assert_eq!(c.decrypt_str(&blob).unwrap(), "héllo wörld ✓");
    let empty = c.encrypt_str("").unwrap();
    assert_eq!(empty.len(), NONCE_LEN + TAG_LEN);
    assert_eq!(c.decrypt_str(&empty).unwrap(), "");
}

#[test]
fn fresh_nonce_each_time() {
    let (c, _) = Crypto::generate();
    let a = c.encrypt(b"same").unwrap();
    let b = c.encrypt(b"same").unwrap();
    assert_ne!(a, b);
}

#[test]
fn decrypt_errors() {
    let (c, _) = Crypto::generate();
    assert_eq!(c.decrypt(&[1, 2, 3]), Err(CryptoError::CiphertextTooShort));
    let mut blob = c.encrypt(b"payload").unwrap();
    let last = blob.len() - 1;
    blob[last] ^= 0x01;
    assert_eq!(c.decrypt(&blob), Err(CryptoError::DecryptionFailed));
    let (other, _) = Crypto::generate();
    let good = c.encrypt(b"payload").unwrap();
    assert_eq!(other.decrypt(&good), Err(CryptoError::DecryptionFailed));
    let not_text = c.encrypt(&[0xff, 0xfe]).unwrap();
    assert_eq!(c.decrypt_str(&not_text), Err(CryptoError::NotUtf8));
}

#[test]
fn vaulted_key_loading() {
    assert!(Crypto::from_vaulted_key(ZERO_KEY).is_ok());
    assert!(Crypto::from_vaulted_key(&format!("  {ZERO_KEY}\n")).is_ok());
    assert_eq!(
        Crypto::from_vaulted_key("not base64!!").err(),
        Some(CryptoError::KeyNotBase64)
    );
    assert_eq!(Crypto::from_vaulted_key("AAAA").err(), Some(CryptoError::KeyWrongLength));
    let a = Crypto::from_vaulted_key(ZERO_KEY).unwrap();
    let b = Crypto::from_vaulted_key(ZERO_KEY).unwrap();
    let blob = a.encrypt_str("shared").unwrap();
    assert_eq!(b.decrypt_str(&blob).unwrap(), "shared");
}

#[test]
fn load_or_create_round_trip() {
    let (created, text) = Crypto::load_or_create(None).unwrap();
    let text = text.expect("a new key must be stored");
    assert_eq!(text.len(), 44);
    let (loaded, again) = Crypto::load_or_create(Some(&text)).unwrap();
    assert!(again.is_none());
    let blob = created.encrypt_str("kept across restarts").unwrap();
    assert_eq!(loaded.decrypt_str(&blob).unwrap(), "kept across restarts");
    assert_eq!(
        Crypto::load_or_create(Some("AAAA")).err(),
        Some(CryptoError::KeyWrongLength)
    );
}

#[test]
fn error_messages() {
    assert_eq!(CryptoError::DecryptionFailed.message(), "decryption failed (key changed?)");
    assert_eq!(CryptoError::CiphertextTooShort.message(), "ciphertext too short");
}
