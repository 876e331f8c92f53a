use kete::keys::{addr_key_input, encryption_context, entry_context, scoped_input};
use kete::{derive_addr_key, derive_entry_addr, derive_scoped_addr};

#[test]
fn contexts_name_app_and_purpose() {
    assert_eq!(entry_context("photon"), "photon.storage.entry.v0");
    assert_eq!(encryption_context("photon"), "photon.storage.encryption.v0");
}

#[test]
fn entry_addresses_hash_the_key() {
    assert_eq!(
        derive_entry_addr("photon", "contacts"),
        blake3::derive_key("photon.storage.entry.v0", b"contacts")
    );
    assert_eq!(
        derive_entry_addr("photon", "rārangi"),
        blake3::derive_key("photon.storage.entry.v0", "rārangi".as_bytes())
    );
    assert_ne!(derive_entry_addr("photon", "contacts"), derive_entry_addr("lumis", "contacts"));
    assert_ne!(derive_entry_addr("photon", "contacts"), derive_entry_addr("photon", "contact"));
}

#[test]
fn scoped_addresses_hash_domain_and_scope() {
    let scope = [6u8; 32];
    let mut input = b"avatar".to_vec();
    input.extend_from_slice(&scope);
    assert_eq!(scoped_input("avatar", &scope), input);
    assert_eq!(
        derive_scoped_addr("photon", "avatar", &scope),
        blake3::derive_key("photon.storage.entry.v0", &input)
    );
    assert_ne!(
        derive_scoped_addr("photon", "avatar", &scope),
        derive_scoped_addr("photon", "avatar", &[7u8; 32])
    );
}

#[test]
fn cipher_keys_hash_address_seed_and_secret() {
    let (addr, seed, secret) = ([1u8; 32], [2u8; 32], [3u8; 32]);
    let input = [addr, seed, secret].concat();
    assert_eq!(addr_key_input(&addr, &seed, &secret), input);
    assert_eq!(
        derive_addr_key("photon", &addr, &seed, &secret),
        blake3::derive_key("photon.storage.encryption.v0", &input)
    );
    let key = derive_addr_key("photon", &addr, &seed, &secret);
    assert_ne!(key, derive_addr_key("photon", &[9u8; 32], &seed, &secret));
    assert_ne!(key, derive_addr_key("photon", &addr, &[9u8; 32], &secret));
    assert_ne!(key, derive_addr_key("photon", &addr, &seed, &[9u8; 32]));
    assert_ne!(key, derive_addr_key("photon", &seed, &addr, &secret));
}
