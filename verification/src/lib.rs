//! kete: encrypted keyed storage over a mirrored vault.
//!
//! An app opens a vault and reads and writes values by logical string key, or by 32-byte address.
//! Each value is sealed with a ChaCha20-Poly1305 key of its own and filed under a derived address;
//! callers see keys and plaintext only. A vault is scoped by an app, a seed and a secret: a
//! machine's secret binds it to the machine, any other makes a vault that travels.
//!
//! The vault engine, its files, the host's directories, threads and the clock are not here. They
//! are driven from outside: a [`FlatStorage`] turns calls into requests and replies into results,
//! a [`Librarian`] decides which request is served next, [`growth`] decides what follows a full
//! vault, [`paths`] where the files lie, and [`registry`] that a file has one engine. [`args`],
//! [`entries`], [`hex`] and [`render`] are the inspection tool `keteinfo`. [`laws`] states what
//! holds of all of this together.

pub mod args;
pub mod crypto;
pub mod entries;
pub mod error;
pub mod growth;
pub mod hex;
pub mod keys;
pub mod laws;
pub mod librarian;
pub mod paths;
pub mod registry;
pub mod render;
pub mod storage;
pub mod text;

pub use crypto::{decrypt_bytes, encrypt_bytes};
pub use error::{IoError, IoErrorKind, StorageError};
pub use keys::{derive_addr_key, derive_entry_addr, derive_scoped_addr};
pub use librarian::{Librarian, Queued, Round, VaultOp};
pub use paths::{
    android_vault_dirs, set_android_vault_dirs, vault_ring_paths, HostDirs, RingBase, RingDir,
    RingPath,
};
pub use registry::{Place, Registry, SharedOpen};
pub use storage::{App, FlatStorage, Health, Posted, Replicated};
