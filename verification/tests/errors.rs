use kete::error::lock_error;
use kete::{IoError, IoErrorKind, StorageError};

#[test]
fn each_layer_names_itself() {
    let io = StorageError::Io(IoError { kind: IoErrorKind::Other, text: "disk".to_string() });
    assert_eq!(io.message(), "IO: disk");
    assert_eq!(StorageError::Crypto("aead::Error".to_string()).message(), "Crypto: aead::Error");
    assert_eq!(StorageError::Parse("bad".to_string()).message(), "Parse: bad");
    assert_eq!(StorageError::Vault("tract full".to_string()).message(), "Vault: tract full");
}

#[test]
fn texts_and_host_failures_convert() {
    match StorageError::from("gone".to_string()) {
        StorageError::Vault(message) => assert_eq!(message, "gone"),
        _ => panic!("a text is the vault's"),
    }
    let e = IoError { kind: IoErrorKind::NotFound, text: "no such place".to_string() };
    match StorageError::from(e) {
        StorageError::Io(e) => {
            assert_eq!(e.kind, IoErrorKind::NotFound);
            assert_eq!(e.text, "no such place");
        }
        _ => panic!("a host failure is I/O"),
    }
}

#[test]
fn a_lock_that_fails_says_which() {
    assert_eq!(
        lock_error("vault registry lock", "poisoned").message(),
        "IO: vault registry lock: poisoned"
    );
}
