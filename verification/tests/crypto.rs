use aes_gcm::aead::{Aead, KeyInit, Payload};
use lansec::crypto::{pin_hash, CryptoError, Handshake};
use sha2::Digest;

#[test]
fn handshake_and_roundtrip() {
    let a = Handshake::new();
    let b = Handshake::new();
    let ka = a.derive(b.public(), b.nonce(), "1234");
    let kb = b.derive(a.public(), a.nonce(), "1234");
    let ct = ka.seal(7, b"hdr", b"hello").unwrap();
    let pt = kb.open(7, b"hdr", &ct).unwrap();
    assert_eq!(pt, b"hello");
}

#[test]
fn what_was_changed_does_not_open() {
    let a = Handshake::from_parts([1; 32], [2; 16]);
    let b = Handshake::from_parts([3; 32], [4; 16]);
    let ka = a.derive(b.public(), b.nonce(), "1234");
    let kb = b.derive(a.public(), a.nonce(), "1234");
    let ct = ka.seal(7, b"hdr", b"hello").unwrap();
    assert_eq!(ct.len(), 5 + 16);
    assert_ne!(&ct[..5], b"hello");
    assert!(matches!(kb.open(8, b"hdr", &ct), Err(CryptoError::Decrypt)));
    assert!(matches!(kb.open(7, b"HDR", &ct), Err(CryptoError::Decrypt)));
    let mut bad = ct.clone();
    bad[0] ^= 1;
    assert!(matches!(kb.open(7, b"hdr", &bad), Err(CryptoError::Decrypt)));
    assert!(matches!(kb.open(7, b"hdr", &ct[..15]), Err(CryptoError::Decrypt)));
    let other_pin = b.derive(a.public(), a.nonce(), "4321");
    assert!(matches!(other_pin.open(7, b"hdr", &ct), Err(CryptoError::Decrypt)));
    assert_eq!(CryptoError::Decrypt.message(), "aes-gcm decrypt failed");
    assert_eq!(CryptoError::Encrypt.message(), "aes-gcm encrypt failed");
}

#[test]
fn both_peers_derive_one_key_whatever_the_nonce_order() {
    for (na, nb) in [([0u8; 16], [255u8; 16]), ([255; 16], [0; 16]), ([7; 16], [7; 16])] {
        let a = Handshake::from_parts([11; 32], na);
        let b = Handshake::from_parts([12; 32], nb);
        let ka = a.derive(b.public(), b.nonce(), "0000");
        let kb = b.derive(a.public(), a.nonce(), "0000");
        let ct = kb.seal(1, &[], b"x").unwrap();
        assert_eq!(ka.open(1, &[], &ct).unwrap(), b"x");
    }
}

#[test]
fn public_keys_are_those_of_x25519() {
    let h = Handshake::from_parts([5; 32], [6; 16]);
    let secret = x25519_dalek::StaticSecret::from([5u8; 32]);
    assert_eq!(h.public(), x25519_dalek::PublicKey::from(&secret).as_bytes());
    assert_ne!(h.public(), &[5u8; 32]);
    let offer = h.offer();
    assert_eq!(&offer[..32], h.public());
    assert_eq!(&offer[32..], &[6u8; 16]);
}

#[test]
fn fresh_handshakes_differ() {
    let a = Handshake::new();
    let b = Handshake::new();
    assert_ne!(a.public(), b.public());
    assert_ne!(a.nonce(), b.nonce());
}

#[test]
fn pins_are_hashed_with_sha_256() {
    let h = pin_hash("abc");
    assert_eq!(
        h,
        [
            0xba, 0x78, 0x16, 0xbf, 0x8f, 0x01, 0xcf, 0xea, 0x41, 0x41, 0x40, 0xde, 0x5d, 0xae,
            0x22, 0x23, 0xb0, 0x03, 0x61, 0xa3, 0x96, 0x17, 0x7a, 0x9c, 0xb4, 0x10, 0xff, 0x61,
            0xf2, 0x00, 0x15, 0xad
        ]
    );
}

#[test]
fn session_keys_follow_the_key_schedule() {
    let a = Handshake::from_parts([21; 32], [9; 16]);
    let b = Handshake::from_parts([22; 32], [3; 16]);
    let keys = a.derive(b.public(), b.nonce(), "77");

    let secret = x25519_dalek::StaticSecret::from([21u8; 32]);
    let shared = secret.diffie_hellman(&x25519_dalek::PublicKey::from(*b.public()));
    let mut salt = vec![3u8; 16];
    salt.extend_from_slice(&[9u8; 16]);
    let mut info = b"lansec-bud-v1".to_vec();
    info.extend_from_slice(&sha2::Sha256::digest(b"77"));
    let mut okm = [0u8; 32];
    hkdf::Hkdf::<sha2::Sha256>::new(Some(&salt), shared.as_bytes()).expand(&info, &mut okm).unwrap();
    let cipher = aes_gcm::Aes256Gcm::new_from_slice(&okm).unwrap();
    let mut nonce = [0u8; 12];
    nonce[4..].copy_from_slice(&0x0102_0304_0506_0708u64.to_le_bytes());
    let expected = cipher
        .encrypt(aes_gcm::Nonce::from_slice(&nonce), Payload { msg: b"message", aad: b"aad" })
        .unwrap();
    assert_eq!(keys.seal(0x0102_0304_0506_0708, b"aad", b"message").unwrap(), expected);
}
