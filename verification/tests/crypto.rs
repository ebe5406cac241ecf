use conduit::crypto::{is_openable, sha256_hex, MasterKey};
use conduit::error::Error;

const KEY: &str = "000102030405060708090a0b0c0d0e0f101112131415161718191a1b1c1d1e1f";

fn message(e: Error) -> String {
    e.to_string()
}

#[test]
fn blob_opens_to_its_plaintext() {
    let k = MasterKey::from_hex(&MasterKey::generate_hex()).unwrap();
    let blob = k.encrypt(b"secret").unwrap();
    assert_eq!(blob.len(), 12 + 6 + 16);
    assert_eq!(k.decrypt(&blob).unwrap(), b"secret".to_vec());
    assert_ne!(&blob[12..18], b"secret");
}

#[test]
fn empty_plaintext_round_trips() {
    let k = MasterKey::from_hex(KEY).unwrap();
    let blob = k.encrypt(b"").unwrap();
    assert_eq!(blob.len(), 28);
    assert_eq!(k.decrypt(&blob).unwrap(), Vec::<u8>::new());
}

#[test]
fn nonce_stands_in_front() {
    let k = MasterKey::from_hex(KEY).unwrap();
    let nonce = [7u8; 12];
    let blob = k.encrypt_with_nonce(&nonce, b"abc").unwrap();
    assert_eq!(&blob[..12], &nonce);
    assert_eq!(blob, k.encrypt_with_nonce(&nonce, b"abc").unwrap());
    assert_eq!(k.decrypt(&blob).unwrap(), b"abc".to_vec());
}

#[test]
fn fresh_nonces_differ() {
    let k = MasterKey::from_hex(KEY).unwrap();
    assert_ne!(k.encrypt(b"x").unwrap(), k.encrypt(b"x").unwrap());
}

#[test]
fn tampered_blob_is_refused() {
    let k = MasterKey::from_hex(KEY).unwrap();
    let mut blob = k.encrypt(b"secret").unwrap();
    blob[20] ^= 1;
    assert_eq!(message(k.decrypt(&blob).unwrap_err()), "crypto: aead::Error");
}

#[test]
fn other_key_does_not_open() {
    let a = MasterKey::from_hex(KEY).unwrap();
    let b = MasterKey::from_hex(&"ff".repeat(32)).unwrap();
    let blob = a.encrypt(b"secret").unwrap();
    assert!(b.decrypt(&blob).is_err());
}

#[test]
fn short_blob_is_refused() {
    let k = MasterKey::from_hex(KEY).unwrap();
    assert_eq!(message(k.decrypt(&[0u8; 11]).unwrap_err()), "crypto: blob too short");
    assert_eq!(message(k.decrypt(&[0u8; 12]).unwrap_err()), "crypto: aead::Error");
}

#[test]
fn key_text_may_have_white_space_around() {
    let k = MasterKey::from_hex(&format!("  {KEY}\n")).unwrap();
    let blob = k.encrypt(b"x").unwrap();
    assert_eq!(MasterKey::from_hex(KEY).unwrap().decrypt(&blob).unwrap(), b"x".to_vec());
    let upper = MasterKey::from_hex(&KEY.to_uppercase()).unwrap();
    assert_eq!(upper.decrypt(&blob).unwrap(), b"x".to_vec());
}

#[test]
fn key_of_wrong_length_is_refused() {
    let e = MasterKey::from_hex("00ff").err().unwrap();
    assert_eq!(message(e), "crypto: master key must be 32 bytes (64 hex chars)");
}

#[test]
fn key_that_is_not_hex_is_refused() {
    let odd = message(MasterKey::from_hex("abc").err().unwrap());
    assert!(odd.starts_with("crypto: "));
    let bad = message(MasterKey::from_hex(&"zz".repeat(32)).err().unwrap());
    assert!(bad.starts_with("crypto: "));
    assert_ne!(odd, bad);
}

#[test]
fn key_from_environment() {
    assert!(MasterKey::from_env("K", Some(KEY)).is_ok());
    let e = MasterKey::from_env("CONDUIT_MASTER_KEY", None).err().unwrap();
    assert_eq!(message(e), "crypto: env CONDUIT_MASTER_KEY not set");
}

#[test]
fn generated_keys_are_usable_and_differ() {
    let a = MasterKey::generate_hex();
    let b = MasterKey::generate_hex();
    assert_eq!(a.len(), 64);
    assert!(a.chars().all(|c| matches!(c, '0'..='9' | 'a'..='f')));
    assert_ne!(a, b);
    assert!(MasterKey::from_hex(&a).is_ok());
}

#[test]
fn sha256_of_known_texts() {
    assert_eq!(
        sha256_hex(""),
        "e3b0c44298fc1c149afbf4c8996fb92427ae41e4649b934ca495991b7852b855"
    );
    assert_eq!(
        sha256_hex("abc"),
        "ba7816bf8f01cfea414140de5dae2223b00361a396177a9cb410ff61f20015ad"
    );
}

#[test]
fn ordinary_blobs_are_openable() {
    assert!(is_openable(&[]));
    assert!(is_openable(&[0u8; 64]));
}
