use smartcard_core::crypto::CryptoService;
use smartcard_core::crypto::EncryptedData;
use smartcard_core::crypto::generate_key;

fn service_with_fresh_key() -> CryptoService {
    let key_b64 = generate_key().unwrap();
    CryptoService::from_base64_key(&key_b64).unwrap()
}

#[test]
fn test_encrypt_decrypt() {
    let crypto = service_with_fresh_key();

    let plaintext = "1234567890123";
    let encrypted = crypto.encrypt(plaintext).unwrap();
    let decrypted = crypto.decrypt(&encrypted).unwrap();

    assert_eq!(plaintext, decrypted);
}

#[test]
fn test_encrypt_decrypt_base64() {
    let crypto = service_with_fresh_key();

    let plaintext = "นายทดสอบ ระบบ";
    let encoded = crypto.encrypt_to_base64(plaintext).unwrap();
    let decrypted = crypto.decrypt_from_base64(&encoded).unwrap();

    assert_eq!(plaintext, decrypted);
}

#[test]
fn test_from_base64_key() {
    let key_b64 = generate_key().unwrap();
    let crypto = CryptoService::from_base64_key(&key_b64).unwrap();

    let plaintext = "test data";
    let encoded = crypto.encrypt_to_base64(plaintext).unwrap();
    let decrypted = crypto.decrypt_from_base64(&encoded).unwrap();

    assert_eq!(plaintext, decrypted);
}

#[test]
fn test_invalid_key_size() {
    let short_key = vec![0u8; 16]; // Only 16 bytes
    assert!(CryptoService::new(&short_key).is_err());
}

#[test]
fn test_encrypted_data_encoding() {
    let encrypted = EncryptedData {
        nonce: vec![1, 2, 3, 4, 5, 6, 7, 8, 9, 10, 11, 12],
        ciphertext: vec![13, 14, 15, 16],
    };

    let encoded = encrypted.to_base64();
    let decoded = EncryptedData::from_base64(&encoded).unwrap();

    assert_eq!(encrypted.nonce, decoded.nonce);
    assert_eq!(encrypted.ciphertext, decoded.ciphertext);
}

#[test]
fn test_tampered_ciphertext_fails() {
    let crypto = service_with_fresh_key();
    let mut encrypted = crypto.encrypt("sensitive value").unwrap();
    let last = encrypted.ciphertext.len() - 1;
    encrypted.ciphertext[last] ^= 0x01;
    assert!(crypto.decrypt(&encrypted).is_err());
}

#[test]
fn test_wrong_key_fails() {
    let crypto_a = service_with_fresh_key();
    let crypto_b = service_with_fresh_key();
    let encrypted = crypto_a.encrypt("sensitive value").unwrap();
    assert!(crypto_b.decrypt(&encrypted).is_err());
}

#[test]
fn test_fixed_key_roundtrip_empty_and_unicode() {
    let key: Vec<u8> = (0u8..32u8).collect();
    let crypto = CryptoService::new(&key).unwrap();
    for plaintext in ["", "a", "ครอบครัว émoji ✓"] {
        let encrypted = crypto.encrypt(plaintext).unwrap();
        assert_eq!(encrypted.nonce.len(), 12);
        let decrypted = crypto.decrypt(&encrypted).unwrap();
        assert_eq!(plaintext, decrypted);
    }
}

#[test]
fn test_nonces_are_not_reused() {
    let crypto = service_with_fresh_key();
    let a = crypto.encrypt("x").unwrap();
    let b = crypto.encrypt("x").unwrap();
    // Two encryptions of the same value must not share a nonce (random,
    // so equality has probability 2^-96).
    assert_ne!(a.nonce, b.nonce);
}

#[test]
fn test_from_base64_rejections() {
    assert!(EncryptedData::from_base64("not base64 !!!").is_err());
    // Valid base64 of fewer than twelve bytes is too short.
    assert!(EncryptedData::from_base64("AQID").is_err());
}

#[test]
fn test_invalid_base64_key_rejected() {
    assert!(CryptoService::from_base64_key("////not-valid////").is_err());
    // Sixteen bytes decode fine but are not a 256-bit key.
    let crypto = CryptoService::from_base64_key("AAAAAAAAAAAAAAAAAAAAAA==");
    assert!(crypto.is_err());
}

#[test]
fn test_encrypt_then_decrypt_law() {
    let crypto = service_with_fresh_key();
    assert_eq!(
        smartcard_core::crypto::encrypt_then_decrypt(&crypto, "round trip"),
        Some("round trip".to_string())
    );
}
