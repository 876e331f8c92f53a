use chacha20poly1305::aead::Aead;
use chacha20poly1305::{ChaCha20Poly1305, KeyInit, Nonce};
use kete::crypto::{encrypt_with_nonce, falls_in_counter_gap, frame_sealed, split_blob};
use kete::{decrypt_bytes, encrypt_bytes};

#[test]
fn encrypt_round_trip() {
    let key = [9u8; 32];
    let pt = b"the quick brown fox";
    let blob = encrypt_bytes(pt, &key).unwrap();
    assert_ne!(&blob[12..], &pt[..]); // ciphertext is not the plaintext
    assert_eq!(decrypt_bytes(&blob, &key).unwrap(), pt);
    assert!(decrypt_bytes(&blob, &[8u8; 32]).is_err()); // wrong key fails the AEAD tag
}

#[test]
fn the_blob_is_nonce_then_ciphertext_then_tag() {
    let key = [9u8; 32];
    let nonce = [5u8; 12];
    let blob = encrypt_with_nonce(b"framed", &key, &nonce).unwrap();
    assert_eq!(blob.len(), 12 + 6 + 16);
    assert_eq!(&blob[..12], &nonce[..]);
    let cipher = ChaCha20Poly1305::new((&key).into());
    let sealed = cipher.encrypt(&Nonce::from(nonce), &b"framed"[..]).unwrap();
    assert_eq!(&blob[12..], &sealed[..]);
}

#[test]
fn every_blob_has_a_fresh_nonce() {
    let key = [1u8; 32];
    let a = encrypt_bytes(b"same", &key).unwrap();
    let b = encrypt_bytes(b"same", &key).unwrap();
    assert_ne!(a[..12], b[..12]);
    assert_ne!(a, b);
    assert_eq!(decrypt_bytes(&a, &key).unwrap(), decrypt_bytes(&b, &key).unwrap());
}

#[test]
fn the_empty_value_can_be_sealed() {
    let key = [2u8; 32];
    let blob = encrypt_bytes(b"", &key).unwrap();
    assert_eq!(blob.len(), 28);
    assert_eq!(decrypt_bytes(&blob, &key).unwrap(), b"");
}

#[test]
fn a_blob_too_short_says_how_short() {
    let key = [2u8; 32];
    for len in [0usize, 1, 9, 10, 27] {
        assert_eq!(
            decrypt_bytes(&vec![0u8; len], &key).unwrap_err(),
            format!("ciphertext too short: {len} bytes (need ≥ 28 for nonce + auth tag)")
        );
    }
}

#[test]
fn tampering_is_found() {
    let key = [3u8; 32];
    let blob = encrypt_bytes(b"do not touch", &key).unwrap();
    for at in 0..blob.len() {
        let mut changed = blob.clone();
        changed[at] ^= 1;
        assert_eq!(decrypt_bytes(&changed, &key).unwrap_err(), "aead::Error");
    }
    assert_eq!(decrypt_bytes(&blob[..blob.len() - 1], &key).unwrap_err(), "aead::Error");
}

#[test]
fn what_opens_seals_again_to_the_same_blob() {
    let key = [4u8; 32];
    let blob = encrypt_bytes(b"there and back", &key).unwrap();
    let plain = decrypt_bytes(&blob, &key).unwrap();
    let mut nonce = [0u8; 12];
    nonce.copy_from_slice(&blob[..12]);
    assert_eq!(encrypt_with_nonce(&plain, &key, &nonce).unwrap(), blob);
}

#[test]
fn framing_keeps_errors() {
    assert_eq!(frame_sealed(&[1u8; 12], Ok(vec![7, 8])).unwrap()[10..], [1, 1, 7, 8]);
    assert_eq!(frame_sealed(&[1u8; 12], Err("aead::Error".to_string())).unwrap_err(), "aead::Error");
}

#[test]
fn blobs_split_after_the_nonce() {
    let blob: Vec<u8> = (0u8..30).collect();
    let (nonce, sealed) = split_blob(&blob).unwrap();
    assert_eq!(nonce, &blob[..12]);
    assert_eq!(sealed, &blob[12..]);
    assert!(split_blob(&blob[..27]).is_err());
    assert!(split_blob(&blob[..28]).is_ok());
}

#[test]
fn the_counter_gap_is_one_block_wide() {
    let limit: usize = 64 * 0xffff_fffe;
    assert!(!falls_in_counter_gap(0));
    assert!(!falls_in_counter_gap(limit));
    assert!(falls_in_counter_gap(limit + 1));
    assert!(falls_in_counter_gap(limit + 63));
    assert!(!falls_in_counter_gap(limit + 64));
}
