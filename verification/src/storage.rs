//! The store: logical keys and plaintext on the caller's side, 32-byte addresses and sealed bytes
//! on the vault's side.
//!
//! A store never touches the vault engine itself. Each operation is two calls: the first turns
//! what the caller asks into one [`VaultOp`] for the librarian, the second turns what came back
//! from the librarian into what the caller gets. Sealing and opening happen here, on the caller's
//! thread, so that the work on one big value delays nobody else.

use crate::crypto;
use crate::crypto::{decrypt_bytes, encrypt_bytes, encrypt_with_nonce};
use crate::error::{StorageError, StorageErrorView};
use crate::keys;
use crate::keys::{derive_addr_key, derive_entry_addr};
use crate::librarian::{VaultOp, VaultOpView};
use vstd::prelude::*;

verus! {

/// The calling application. `id` names the vault file and separates the derived keys; `dir` is the
/// subdirectory the two rings live under. Changing either orphans the app's existing vaults.
#[derive(Clone, Copy)]
pub struct App<'a> {
    pub id: &'a str,
    pub dir: &'a str,
}

/// What bringing two mirrors into agreement copied, in blocks.
#[derive(Debug, Clone, Copy, PartialEq, Eq, Structural)]
pub struct Replicated {
    pub spine_copied: u64,
    pub tract_copied: u64,
}

/// What came of posting a request to the librarian and waiting for its reply.
#[derive(Debug)]
pub enum Posted<R> {
    /// The mailbox could not be locked.
    LockPoisoned,
    /// The librarian was gone before it replied.
    ThreadGone,
    /// The librarian replied.
    Replied(R),
}

/// The reply, or the vault error for a request that got none.
pub open spec fn posted_result<R>(outcome: Posted<R>) -> Result<R, StorageErrorView> {
    match outcome {
        Posted::LockPoisoned => Err(StorageErrorView::Vault("vault mailbox lock poisoned"@)),
        Posted::ThreadGone => Err(StorageErrorView::Vault("vault thread gone"@)),
        Posted::Replied(reply) => Ok(reply),
    }
}

/// A result whose error is seen as plain mathematics.
pub open spec fn error_seen<R>(r: Result<R, StorageError>) -> Result<R, StorageErrorView> {
    match r {
        Ok(value) => Ok(value),
        Err(e) => Err(e@),
    }
}

/// A read's result as plain mathematics.
pub open spec fn read_seen(r: Result<Option<Vec<u8>>, StorageError>) -> Result<
    Option<Seq<u8>>,
    StorageErrorView,
> {
    match r {
        Ok(Some(bytes)) => Ok(Some(bytes@)),
        Ok(None) => Ok(None),
        Err(e) => Err(e@),
    }
}

/// What a mutation's caller gets: the engine's complaint is a vault error.
pub open spec fn mutation_result(outcome: Posted<Result<(), String>>) -> Result<
    (),
    StorageErrorView,
> {
    match posted_result(outcome) {
        Ok(Ok(())) => Ok(()),
        Ok(Err(message)) => Err(StorageErrorView::Vault(message@)),
        Err(e) => Err(e),
    }
}

/// What a request for the mirrors' health came to: without a reply the vault counts as degraded.
pub open spec fn reported_degraded(answer: Posted<bool>) -> bool {
    match answer {
        Posted::Replied(degraded) => degraded,
        _ => true,
    }
}

/// A store as plain mathematics.
#[verifier::ext_equal]
pub struct StorageView {
    /// The app's name, part of every key derivation.
    pub app_id: Seq<char>,
    /// The identity the vault is for.
    pub vault_seed: Seq<u8>,
    /// What the vault is bound to: a machine's secret, or one that travels.
    pub secret: Seq<u8>,
    /// Whether the mirrors had diverged when the vault was opened.
    pub healed_at_open: bool,
    /// Whether values are sealed before they are stored.
    pub encrypt: bool,
}

impl StorageView {
    /// The address of a logical string key.
    pub open spec fn addr_of(self, key: Seq<char>) -> Seq<u8> {
        keys::entry_addr(self.app_id, key)
    }

    /// The cipher key of an address.
    pub open spec fn key_of(self, addr: Seq<u8>) -> Seq<u8> {
        keys::addr_key(self.app_id, addr, self.vault_seed, self.secret)
    }

    /// Whether a value of `len` bytes is too long to be stored.
    pub open spec fn refuses(self, len: nat) -> bool {
        self.encrypt && crypto::too_long_for_cipher(len)
    }

    /// The bytes stored for `data` at `addr`, when the cipher runs with `nonce`.
    pub open spec fn stored_form(self, addr: Seq<u8>, data: Seq<u8>, nonce: Seq<u8>) -> Result<
        Seq<u8>,
        StorageErrorView,
    > {
        if self.encrypt {
            match crypto::encrypted(data, self.key_of(addr), nonce) {
                Ok(blob) => Ok(blob),
                Err(message) => Err(StorageErrorView::Crypto(message)),
            }
        } else {
            Ok(data)
        }
    }

    /// The value that the bytes `stored` at `addr` stand for.
    pub open spec fn value_in(self, addr: Seq<u8>, stored: Seq<u8>) -> Result<
        Seq<u8>,
        StorageErrorView,
    > {
        if self.encrypt {
            match crypto::decrypted(stored, self.key_of(addr)) {
                Ok(plaintext) => Ok(plaintext),
                Err(message) => Err(StorageErrorView::Crypto(message)),
            }
        } else {
            Ok(stored)
        }
    }

    /// What the reader of `addr` gets where the engine found `found` there.
    pub open spec fn read_of(self, addr: Seq<u8>, found: Option<Seq<u8>>) -> Result<
        Option<Seq<u8>>,
        StorageErrorView,
    > {
        match found {
            None => Ok(None),
            Some(stored) => match self.value_in(addr, stored) {
                Ok(value) => Ok(Some(value)),
                Err(e) => Err(e),
            },
        }
    }

    /// What the reader of `addr` gets.
    pub open spec fn read_result(
        self,
        addr: Seq<u8>,
        outcome: Posted<Result<Option<Vec<u8>>, String>>,
    ) -> Result<Option<Seq<u8>>, StorageErrorView> {
        match posted_result(outcome) {
            Err(e) => Err(e),
            Ok(Err(message)) => Err(StorageErrorView::Vault(message@)),
            Ok(Ok(None)) => self.read_of(addr, None),
            Ok(Ok(Some(stored))) => self.read_of(addr, Some(stored@)),
        }
    }

    /// Whether `request` asks the engine to store `data` at `addr`: the bytes it carries are what
    /// the store makes of `data` with some nonce, and they stand for `data` again.
    pub open spec fn is_write_of(
        self,
        request: Result<VaultOp, StorageError>,
        addr: Seq<u8>,
        data: Seq<u8>,
    ) -> bool {
        match request {
            Ok(op) => {
                &&& !self.refuses(data.len())
                &&& op@ matches VaultOpView::Put { addr: at, stored }
                &&& at == addr
                &&& exists|nonce: Seq<u8>|
                    #![trigger self.stored_form(addr, data, nonce)]
                    nonce.len() == crypto::NONCE_LEN && self.stored_form(addr, data, nonce) == Ok::<
                        Seq<u8>,
                        StorageErrorView,
                    >(stored)
                &&& self.value_in(addr, stored) == Ok::<Seq<u8>, StorageErrorView>(data)
            },
            Err(e) => self.refuses(data.len()) && e@ == StorageErrorView::Crypto(
                crypto::cipher_error_text(),
            ),
        }
    }
}

/// How the store stands with its mirrors, as far as it knows by itself.
pub enum Health {
    /// The mirrors had diverged at open: degraded, whatever the engine says now.
    Degraded,
    /// The engine has to be asked.
    Ask(VaultOp),
}

/// An app's keyed storage in one vault.
pub struct FlatStorage {
    app_id: String,
    vault_seed: [u8; 32],
    secret: [u8; 32],
    healed_at_open: bool,
    encrypt: bool,
}

impl View for FlatStorage {
    type V = StorageView;

    closed spec fn view(&self) -> StorageView {
        StorageView {
            app_id: self.app_id@,
            vault_seed: self.vault_seed@,
            secret: self.secret@,
            healed_at_open: self.healed_at_open,
            encrypt: self.encrypt,
        }
    }
}

/// What opening a store gives: a store of the vault's own names, or the failure to open its rings.
pub open spec fn open_result(
    app: App<'_>,
    vault_seed: Seq<u8>,
    secret: Seq<u8>,
    rings: Result<Replicated, StorageError>,
    encrypt: bool,
) -> Result<StorageView, StorageErrorView> {
    match rings {
        Ok(healed) => Ok(
            StorageView {
                app_id: app.id@,
                vault_seed,
                secret,
                healed_at_open: healed.spine_copied != 0 || healed.tract_copied != 0,
                encrypt,
            },
        ),
        Err(e) => Err(e@),
    }
}

/// An opened store as plain mathematics.
pub open spec fn opened_seen(r: Result<FlatStorage, StorageError>) -> Result<
    StorageView,
    StorageErrorView,
> {
    match r {
        Ok(store) => Ok(store@),
        Err(e) => Err(e@),
    }
}

/// The librarian's reply to a posted request. A librarian that is gone is a vault error.
pub fn post<R>(outcome: Posted<R>) -> (reply: Result<R, StorageError>)
    ensures
        error_seen(reply) == posted_result(outcome),
        match outcome {
            Posted::LockPoisoned => reply matches Err(StorageError::Vault(told)) && told@
                == "vault mailbox lock poisoned"@,
            Posted::ThreadGone => reply matches Err(StorageError::Vault(told)) && told@
                == "vault thread gone"@,
            Posted::Replied(given) => reply == Ok::<R, StorageError>(given),
        },
{
    match outcome {
        Posted::LockPoisoned => Err(StorageError::Vault("vault mailbox lock poisoned".to_owned())),
        Posted::ThreadGone => Err(StorageError::Vault("vault thread gone".to_owned())),
        Posted::Replied(reply) => Ok(reply),
    }
}

/// What the caller of a mutation gets.
fn acknowledged(outcome: Posted<Result<(), String>>) -> (r: Result<(), StorageError>)
    ensures
        error_seen(r) == mutation_result(outcome),
{
    match post(outcome) {
        Ok(Ok(())) => Ok(()),
        Ok(Err(message)) => Err(StorageError::Vault(message)),
        Err(e) => Err(e),
    }
}

impl FlatStorage {
    /// An encrypted store, keyed on `secret`, over rings that were opened with the outcome `rings`.
    /// The same app, seed and secret give the same vault and the same keys anywhere.
    pub fn new(
        app: App<'_>,
        vault_seed: [u8; 32],
        secret: [u8; 32],
        rings: Result<Replicated, StorageError>,
    ) -> (store: Result<FlatStorage, StorageError>)
        ensures
            opened_seen(store) == open_result(app, vault_seed@, secret@, rings, true),
            match (rings, store) {
                (Ok(healed), Ok(s)) => {
                    &&& s@.app_id == app.id@
                    &&& s@.vault_seed == vault_seed@
                    &&& s@.secret == secret@
                    &&& s@.healed_at_open == (healed.spine_copied != 0 || healed.tract_copied != 0)
                    &&& s@.encrypt
                },
                (Err(cause), Err(e)) => e == cause,
                _ => false,
            },
    {
        FlatStorage::open(app, vault_seed, secret, rings, true)
    }

    /// A store that keeps values in plaintext: same addresses, no sealing. Not for secrets.
    pub fn new_plaintext(
        app: App<'_>,
        vault_seed: [u8; 32],
        secret: [u8; 32],
        rings: Result<Replicated, StorageError>,
    ) -> (store: Result<FlatStorage, StorageError>)
        ensures
            opened_seen(store) == open_result(app, vault_seed@, secret@, rings, false),
            match (rings, store) {
                (Ok(healed), Ok(s)) => {
                    &&& s@.app_id == app.id@
                    &&& s@.vault_seed == vault_seed@
                    &&& s@.secret == secret@
                    &&& s@.healed_at_open == (healed.spine_copied != 0 || healed.tract_copied != 0)
                    &&& !s@.encrypt
                },
                (Err(cause), Err(e)) => e == cause,
                _ => false,
            },
    {
        FlatStorage::open(app, vault_seed, secret, rings, false)
    }

    fn open(
        app: App<'_>,
        vault_seed: [u8; 32],
        secret: [u8; 32],
        rings: Result<Replicated, StorageError>,
        encrypt: bool,
    ) -> (store: Result<FlatStorage, StorageError>)
        ensures
            opened_seen(store) == open_result(app, vault_seed@, secret@, rings, encrypt),
            match (rings, store) {
                (Ok(healed), Ok(s)) => {
                    &&& s@.app_id == app.id@
                    &&& s@.vault_seed == vault_seed@
                    &&& s@.secret == secret@
                    &&& s@.healed_at_open == (healed.spine_copied != 0 || healed.tract_copied != 0)
                    &&& s@.encrypt == encrypt
                },
                (Err(cause), Err(e)) => e == cause,
                _ => false,
            },
    {
        match rings {
            Ok(healed) => Ok(
                FlatStorage {
                    app_id: app.id.to_owned(),
                    vault_seed,
                    secret,
                    healed_at_open: healed.spine_copied != 0 || healed.tract_copied != 0,
                    encrypt,
                },
            ),
            Err(e) => Err(e),
        }
    }

    /// The request that stores `data` under a logical string key. The string is hashed to an
    /// address and never reaches the disk.
    pub fn write(&self, key: &str, data: &[u8]) -> (request: Result<VaultOp, StorageError>)
        requires
            self@.encrypt ==> !crypto::in_counter_gap(data@.len()),
        ensures
            self@.is_write_of(request, self@.addr_of(key@), data@),
            match request {
                Ok(op) => op matches VaultOp::Put { addr: at, stored } && {
                    &&& at@ == keys::derived_key(
                        self@.app_id + ".storage.entry.v0"@,
                        vstd::utf8::encode_utf8(key@),
                    )
                    &&& !self@.encrypt ==> stored@ == data@
                    &&& self@.encrypt ==> stored@.len() == data@.len() + 28 && crypto::aead_opened(
                        keys::derived_key(
                            self@.app_id + ".storage.encryption.v0"@,
                            at@ + self@.vault_seed + self@.secret,
                        ),
                        stored@.take(12),
                        stored@.skip(12),
                    ) == Some(data@)
                },
                Err(e) => {
                    &&& self@.encrypt && data@.len() / 64 >= 0xffff_ffff
                    &&& e matches StorageError::Crypto(message) && message@ == "aead::Error"@
                },
            },
            request is Err <==> self@.encrypt && data@.len() / 64 >= 0xffff_ffff,
    {
        let addr = self.derive_entry_key(key);
        self.write_addr(&addr, data)
    }

    /// The request that reads a logical string key.
    pub fn read(&self, key: &str) -> (request: VaultOp)
        ensures
            request@ == (VaultOpView::Get { addr: self@.addr_of(key@) }),
            request matches VaultOp::Get { addr } && addr@ == keys::derived_key(
                self@.app_id + ".storage.entry.v0"@,
                vstd::utf8::encode_utf8(key@),
            ),
    {
        let addr = self.derive_entry_key(key);
        self.read_addr(&addr)
    }

    /// The request that removes a logical string key.
    pub fn delete(&self, key: &str) -> (request: VaultOp)
        ensures
            request@ == (VaultOpView::Delete { addr: self@.addr_of(key@) }),
            request matches VaultOp::Delete { addr } && addr@ == keys::derived_key(
                self@.app_id + ".storage.entry.v0"@,
                vstd::utf8::encode_utf8(key@),
            ),
    {
        let addr = self.derive_entry_key(key);
        self.delete_addr(&addr)
    }

    /// The request that stores `data` at an address, for callers who hold one. The address is an
    /// input of the cipher key, so a value reads back the same whether it is reached by address or
    /// by a string that hashes to it.
    pub fn write_addr(&self, addr: &[u8; 32], data: &[u8]) -> (request: Result<
        VaultOp,
        StorageError,
    >)
        requires
            self@.encrypt ==> !crypto::in_counter_gap(data@.len()),
        ensures
            self@.is_write_of(request, addr@, data@),
            match request {
                Ok(op) => op matches VaultOp::Put { addr: at, stored } && {
                    &&& at@ == addr@
                    &&& !self@.encrypt ==> stored@ == data@
                    &&& self@.encrypt ==> stored@.len() == data@.len() + 28 && crypto::aead_opened(
                        keys::derived_key(
                            self@.app_id + ".storage.encryption.v0"@,
                            at@ + self@.vault_seed + self@.secret,
                        ),
                        stored@.take(12),
                        stored@.skip(12),
                    ) == Some(data@)
                },
                Err(e) => {
                    &&& self@.encrypt && data@.len() / 64 >= 0xffff_ffff
                    &&& e matches StorageError::Crypto(message) && message@ == "aead::Error"@
                },
            },
            request is Err <==> self@.encrypt && data@.len() / 64 >= 0xffff_ffff,
    {
        if self.encrypt {
            let key = self.derive_enc_key_for_addr(addr);
            let sealed = encrypt_bytes(data, &key);
            let ghost nonce = choose|nonce: Seq<u8>|
                #![trigger crypto::encrypted(data@, key@, nonce)]
                nonce.len() == crypto::NONCE_LEN && crypto::seen(sealed) == crypto::encrypted(
                    data@,
                    key@,
                    nonce,
                );
            match sealed {
                Ok(stored) => {
                    assert(self@.stored_form(addr@, data@, nonce) == Ok::<
                        Seq<u8>,
                        StorageErrorView,
                    >(stored@));
                    Ok(VaultOp::Put { addr: *addr, stored })
                },
                Err(message) => {
                    assert(crypto::encrypted(data@, key@, nonce) == Err::<Seq<u8>, Seq<char>>(
                        message@,
                    ));
                    Err(StorageError::Crypto(message))
                },
            }
        } else {
            let mut stored: Vec<u8> = Vec::new();
            stored.extend_from_slice(data);
            assert(stored@ == data@);
            proof {
                let nonce = Seq::new(crypto::NONCE_LEN as nat, |i: int| 0u8);
                assert(self@.stored_form(addr@, data@, nonce) == Ok::<Seq<u8>, StorageErrorView>(
                    stored@,
                ));
            }
            Ok(VaultOp::Put { addr: *addr, stored })
        }
    }

    /// The bytes stored for `data` at `addr` when the cipher runs with a given nonce.
    pub fn stored_with_nonce(&self, addr: &[u8; 32], data: &[u8], nonce: &[u8; 12]) -> (stored:
        Result<Vec<u8>, StorageError>)
        requires
            self@.encrypt ==> !crypto::in_counter_gap(data@.len()),
        ensures
            match stored {
                Ok(bytes) => self@.stored_form(addr@, data@, nonce@) == Ok::<
                    Seq<u8>,
                    StorageErrorView,
                >(bytes@),
                Err(e) => self@.stored_form(addr@, data@, nonce@) == Err::<
                    Seq<u8>,
                    StorageErrorView,
                >(e@),
            },
            stored is Err <==> self@.refuses(data@.len()),
            stored is Err <==> self@.encrypt && data@.len() / 64 >= 0xffff_ffff,
            match stored {
                Ok(bytes) => {
                    &&& !self@.encrypt ==> bytes@ == data@
                    &&& self@.encrypt ==> bytes@.take(12) == nonce@ && crypto::aead_sealed(
                        keys::derived_key(
                            self@.app_id + ".storage.encryption.v0"@,
                            addr@ + self@.vault_seed + self@.secret,
                        ),
                        nonce@,
                        data@,
                    ) == Some(bytes@.skip(12))
                },
                Err(e) => e matches StorageError::Crypto(told) && told@ == "aead::Error"@,
            },
            stored matches Ok(bytes) ==> self@.value_in(addr@, bytes@) == Ok::<
                Seq<u8>,
                StorageErrorView,
            >(data@),
    {
        if self.encrypt {
            let key = self.derive_enc_key_for_addr(addr);
            match encrypt_with_nonce(data, &key, nonce) {
                Ok(stored) => Ok(stored),
                Err(message) => Err(StorageError::Crypto(message)),
            }
        } else {
            let mut stored: Vec<u8> = Vec::new();
            stored.extend_from_slice(data);
            assert(stored@ == data@);
            Ok(stored)
        }
    }

    /// The request that reads an address.
    pub fn read_addr(&self, addr: &[u8; 32]) -> (request: VaultOp)
        ensures
            request@ == (VaultOpView::Get { addr: addr@ }),
            request matches VaultOp::Get { addr: at } && at@ == addr@,
    {
        VaultOp::Get { addr: *addr }
    }

    /// The request that removes what is at an address.
    pub fn delete_addr(&self, addr: &[u8; 32]) -> (request: VaultOp)
        ensures
            request@ == (VaultOpView::Delete { addr: addr@ }),
            request matches VaultOp::Delete { addr: at } && at@ == addr@,
    {
        VaultOp::Delete { addr: *addr }
    }

    /// What a write's caller gets.
    pub fn finish_write(&self, outcome: Posted<Result<(), String>>) -> (r: Result<(), StorageError>)
        ensures
            error_seen(r) == mutation_result(outcome),
            match outcome {
                Posted::LockPoisoned => r matches Err(StorageError::Vault(told)) && told@
                    == "vault mailbox lock poisoned"@,
                Posted::ThreadGone => r matches Err(StorageError::Vault(told)) && told@
                    == "vault thread gone"@,
                Posted::Replied(Ok(())) => r is Ok,
                Posted::Replied(Err(message)) => r matches Err(StorageError::Vault(told)) && told@
                    == message@,
            },
    {
        acknowledged(outcome)
    }

    /// What a delete's caller gets.
    pub fn finish_delete(&self, outcome: Posted<Result<(), String>>) -> (r: Result<
        (),
        StorageError,
    >)
        ensures
            error_seen(r) == mutation_result(outcome),
            match outcome {
                Posted::LockPoisoned => r matches Err(StorageError::Vault(told)) && told@
                    == "vault mailbox lock poisoned"@,
                Posted::ThreadGone => r matches Err(StorageError::Vault(told)) && told@
                    == "vault thread gone"@,
                Posted::Replied(Ok(())) => r is Ok,
                Posted::Replied(Err(message)) => r matches Err(StorageError::Vault(told)) && told@
                    == message@,
            },
    {
        acknowledged(outcome)
    }

    /// What the reader of a logical string key gets.
    pub fn finish_read(
        &self,
        key: &str,
        outcome: Posted<Result<Option<Vec<u8>>, String>>,
    ) -> (value: Result<Option<Vec<u8>>, StorageError>)
        ensures
            read_seen(value) == self@.read_result(self@.addr_of(key@), outcome),
            match outcome {
                Posted::LockPoisoned => value matches Err(StorageError::Vault(told)) && told@
                    == "vault mailbox lock poisoned"@,
                Posted::ThreadGone => value matches Err(StorageError::Vault(told)) && told@
                    == "vault thread gone"@,
                Posted::Replied(Err(message)) => value matches Err(StorageError::Vault(told))
                    && told@ == message@,
                Posted::Replied(Ok(None)) => value matches Ok(None),
                Posted::Replied(Ok(Some(stored))) => {
                    let opened = crypto::aead_opened(
                        keys::derived_key(
                            self@.app_id + ".storage.encryption.v0"@,
                            keys::derived_key(
                                self@.app_id + ".storage.entry.v0"@,
                                vstd::utf8::encode_utf8(key@),
                            ) + self@.vault_seed + self@.secret,
                        ),
                        stored@.take(12),
                        stored@.skip(12),
                    );
                    let opens = stored@.len() >= 28 && opened is Some && !(64 * 0xffff_fffe
                        < stored@.len() - 28 < 64 * 0xffff_ffff);
                    &&& !self@.encrypt ==> (value matches Ok(Some(v)) && v@ == stored@)
                    &&& self@.encrypt && opens ==> (value matches Ok(Some(v)) && opened
                        == Some(v@))
                    &&& self@.encrypt && !opens ==> (value matches Err(StorageError::Crypto(told))
                        && told@ == if stored@.len() < 28 {
                        "ciphertext too short: "@ + crate::text::decimal_text(stored@.len())
                            + " bytes (need ≥ 28 for nonce + auth tag)"@
                    } else {
                        "aead::Error"@
                    })
                },
            },
    {
        let addr = self.derive_entry_key(key);
        self.finish_read_addr(&addr, outcome)
    }

    /// What the reader of an address gets: nothing where nothing is stored, the value where it
    /// opens, and an error otherwise.
    pub fn finish_read_addr(
        &self,
        addr: &[u8; 32],
        outcome: Posted<Result<Option<Vec<u8>>, String>>,
    ) -> (value: Result<Option<Vec<u8>>, StorageError>)
        ensures
            read_seen(value) == self@.read_result(addr@, outcome),
            match outcome {
                Posted::LockPoisoned => value matches Err(StorageError::Vault(told)) && told@
                    == "vault mailbox lock poisoned"@,
                Posted::ThreadGone => value matches Err(StorageError::Vault(told)) && told@
                    == "vault thread gone"@,
                Posted::Replied(Err(message)) => value matches Err(StorageError::Vault(told))
                    && told@ == message@,
                Posted::Replied(Ok(None)) => value matches Ok(None),
                Posted::Replied(Ok(Some(stored))) => {
                    let opened = crypto::aead_opened(
                        keys::derived_key(
                            self@.app_id + ".storage.encryption.v0"@,
                            addr@ + self@.vault_seed + self@.secret,
                        ),
                        stored@.take(12),
                        stored@.skip(12),
                    );
                    let opens = stored@.len() >= 28 && opened is Some && !(64 * 0xffff_fffe
                        < stored@.len() - 28 < 64 * 0xffff_ffff);
                    &&& !self@.encrypt ==> (value matches Ok(Some(v)) && v@ == stored@)
                    &&& self@.encrypt && opens ==> (value matches Ok(Some(v)) && opened
                        == Some(v@))
                    &&& self@.encrypt && !opens ==> (value matches Err(StorageError::Crypto(told))
                        && told@ == if stored@.len() < 28 {
                        "ciphertext too short: "@ + crate::text::decimal_text(stored@.len())
                            + " bytes (need ≥ 28 for nonce + auth tag)"@
                    } else {
                        "aead::Error"@
                    })
                },
            },
    {
        let stored = match post(outcome) {
            Ok(Ok(Some(stored))) => stored,
            Ok(Ok(None)) => return Ok(None),
            Ok(Err(message)) => return Err(StorageError::Vault(message)),
            Err(e) => return Err(e),
        };
        if !self.encrypt {
            return Ok(Some(stored));
        }
        let key = self.derive_enc_key_for_addr(addr);
        match decrypt_bytes(stored.as_slice(), &key) {
            Ok(plaintext) => Ok(Some(plaintext)),
            Err(message) => Err(StorageError::Crypto(message)),
        }
    }

    /// The vault's seed: the scope of entries that belong to the vault itself.
    pub fn vault_seed(&self) -> (seed: &[u8; 32])
        ensures
            seed@ == self@.vault_seed,
    {
        &self.vault_seed
    }

    /// Whether the store is known to be degraded, or the request that finds out.
    pub fn degraded(&self) -> (health: Health)
        ensures
            health is Degraded <==> self@.healed_at_open,
            health matches Health::Ask(request) ==> request@ == VaultOpView::Degraded,
            health matches Health::Ask(request) ==> request is Degraded,
    {
        if self.healed_at_open {
            Health::Degraded
        } else {
            Health::Ask(VaultOp::Degraded)
        }
    }

    /// Whether the mirrors had diverged at open, or one has died since. An engine that does not
    /// reply counts as degraded.
    pub fn finish_degraded(&self, answer: Posted<bool>) -> (degraded: bool)
        ensures
            degraded == (self@.healed_at_open || reported_degraded(answer)),
            !degraded <==> !self@.healed_at_open && answer == Posted::Replied(false),
    {
        if self.healed_at_open {
            return true;
        }
        match post(answer) {
            Ok(degraded) => degraded,
            Err(_) => true,
        }
    }

    /// The cipher key of an address, bound to the app, the vault's seed and its secret.
    fn derive_enc_key_for_addr(&self, addr: &[u8; 32]) -> (key: [u8; 32])
        ensures
            key@ == self@.key_of(addr@),
    {
        derive_addr_key(self.app_id.as_str(), addr, &self.vault_seed, &self.secret)
    }

    /// The address of a logical string key. The vault is already one identity's, so only the app
    /// and the key enter.
    fn derive_entry_key(&self, key: &str) -> (addr: [u8; 32])
        ensures
            addr@ == self@.addr_of(key@),
    {
        derive_entry_addr(self.app_id.as_str(), key)
    }
}

/// A value written is the value read: the reply that carries the bytes of a write gives its reader
/// the written value, whole, in an encrypted store and in a plaintext one.
pub proof fn replies_give_back_what_was_written(
    store: StorageView,
    written: VaultOp,
    addr: Seq<u8>,
    data: Seq<u8>,
    outcome: Posted<Result<Option<Vec<u8>>, String>>,
)
    requires
        store.is_write_of(Ok(written), addr, data),
        written matches VaultOp::Put { addr: _, stored } && outcome matches Posted::Replied(
            Ok(Some(found)),
        ) && found@ == stored@,
    ensures
        store.read_result(addr, outcome) == Ok::<Option<Seq<u8>>, StorageErrorView>(Some(data)),
{
}

/// A write carries its value: the request puts, at the very address, bytes that are the value itself
/// in a plaintext store, and that the cipher opens to the whole value, under the key of that address,
/// in an encrypted one.
pub proof fn writes_carry_their_value(
    store: StorageView,
    written: VaultOp,
    addr: Seq<u8>,
    data: Seq<u8>,
)
    requires
        store.is_write_of(Ok(written), addr, data),
    ensures
        written matches VaultOp::Put { addr: at, stored } && {
            &&& at@ == addr
            &&& !store.encrypt ==> stored@ == data
            &&& store.encrypt ==> crypto::aead_opened(
                keys::derived_key(
                    store.app_id + ".storage.encryption.v0"@,
                    addr + store.vault_seed + store.secret,
                ),
                stored@.take(12),
                stored@.skip(12),
            ) == Some(data)
        },
{
}

/// A read gives what is stored and nothing else: nothing where nothing is; in a plaintext store the
/// very bytes; in an encrypted one all that the cipher finds in them under the address's key, and an
/// error where it finds nothing.
pub proof fn reads_give_what_is_stored(
    store: StorageView,
    addr: Seq<u8>,
    stored: Seq<u8>,
    value: Seq<u8>,
)
    ensures
        store.read_of(addr, None) == Ok::<Option<Seq<u8>>, StorageErrorView>(None),
        !store.encrypt ==> (store.read_of(addr, Some(stored)) == Ok::<
            Option<Seq<u8>>,
            StorageErrorView,
        >(Some(value)) <==> value == stored),
        store.encrypt ==> (store.read_of(addr, Some(stored)) == Ok::<
            Option<Seq<u8>>,
            StorageErrorView,
        >(Some(value)) <==> stored.len() >= 28 && !(64 * 0xffff_fffe < stored.len() - 28 < 64
            * 0xffff_ffff) && crypto::aead_opened(
            keys::derived_key(
                store.app_id + ".storage.encryption.v0"@,
                addr + store.vault_seed + store.secret,
            ),
            stored.take(12),
            stored.skip(12),
        ) == Some(value)),
        store.read_of(addr, Some(stored)) matches Ok(found) ==> found is Some,
        store.read_of(addr, Some(stored)) matches Err(e) ==> store.encrypt && e
            == StorageErrorView::Crypto(
            if stored.len() < 28 {
                "ciphertext too short: "@ + crate::text::decimal_text(stored.len())
                    + " bytes (need ≥ 28 for nonce + auth tag)"@
            } else {
                "aead::Error"@
            },
        ),
{
}

/// What the librarian replied is passed on as it is: to a reader what was found, to a writer that it
/// is done, and to both the engine's own words where it failed, or that nobody replied.
pub proof fn replies_are_passed_on(
    store: StorageView,
    addr: Seq<u8>,
    read: Posted<Result<Option<Vec<u8>>, String>>,
    done: Posted<Result<(), String>>,
)
    ensures
        match read {
            Posted::LockPoisoned => store.read_result(addr, read) == Err::<
                Option<Seq<u8>>,
                StorageErrorView,
            >(StorageErrorView::Vault("vault mailbox lock poisoned"@)),
            Posted::ThreadGone => store.read_result(addr, read) == Err::<
                Option<Seq<u8>>,
                StorageErrorView,
            >(StorageErrorView::Vault("vault thread gone"@)),
            Posted::Replied(Err(message)) => store.read_result(addr, read) == Err::<
                Option<Seq<u8>>,
                StorageErrorView,
            >(StorageErrorView::Vault(message@)),
            Posted::Replied(Ok(None)) => store.read_result(addr, read) == Ok::<
                Option<Seq<u8>>,
                StorageErrorView,
            >(None),
            Posted::Replied(Ok(Some(stored))) => store.read_result(addr, read) == store.read_of(
                addr,
                Some(stored@),
            ),
        },
        match done {
            Posted::LockPoisoned => mutation_result(done) == Err::<(), StorageErrorView>(
                StorageErrorView::Vault("vault mailbox lock poisoned"@),
            ),
            Posted::ThreadGone => mutation_result(done) == Err::<(), StorageErrorView>(
                StorageErrorView::Vault("vault thread gone"@),
            ),
            Posted::Replied(Ok(())) => mutation_result(done) is Ok,
            Posted::Replied(Err(message)) => mutation_result(done) == Err::<(), StorageErrorView>(
                StorageErrorView::Vault(message@),
            ),
        },
{
}

/// A store files a string key at the hash of the whole key, and seals what lies at an address under
/// the hash of that address, its seed and its secret.
pub proof fn stores_derive_addresses_and_keys(store: StorageView, key: Seq<char>, addr: Seq<u8>)
    ensures
        store.addr_of(key) == keys::derived_key(
            store.app_id + ".storage.entry.v0"@,
            vstd::utf8::encode_utf8(key),
        ),
        store.key_of(addr) == keys::derived_key(
            store.app_id + ".storage.encryption.v0"@,
            addr + store.vault_seed + store.secret,
        ),
{
}

/// A store is opened as asked: for the app, the seed and the secret that were given, sealing or not as
/// was asked, and marked as healed exactly if bringing the mirrors into agreement copied anything.
/// Rings that fail to open make no store, and say why.
pub proof fn stores_open_as_asked(
    app: App<'_>,
    vault_seed: Seq<u8>,
    secret: Seq<u8>,
    rings: Result<Replicated, StorageError>,
    encrypt: bool,
)
    ensures
        match rings {
            Ok(healed) => open_result(app, vault_seed, secret, rings, encrypt) matches Ok(store) && {
                &&& store.app_id == app.id@
                &&& store.vault_seed == vault_seed
                &&& store.secret == secret
                &&& store.encrypt == encrypt
                &&& !store.healed_at_open <==> healed.spine_copied == 0 && healed.tract_copied == 0
            },
            Err(cause) => open_result(app, vault_seed, secret, rings, encrypt) == Err::<
                StorageView,
                StorageErrorView,
            >(cause@),
        },
{
}

/// Only an engine that says so is healthy: whatever else came back counts as degraded.
pub proof fn only_a_reply_clears_the_mirrors(answer: Posted<bool>)
    ensures
        !reported_degraded(answer) <==> answer == Posted::Replied(false),
{
}

/// What is stored for a value is the value itself in a plaintext store, which refuses none; in an
/// encrypted one it is the nonce and behind it what the cipher makes of the whole value under the
/// address's key, and a value is refused exactly if the cipher has no blocks for it.
pub proof fn values_are_stored_whole(
    store: StorageView,
    addr: Seq<u8>,
    data: Seq<u8>,
    nonce: Seq<u8>,
)
    ensures
        store.refuses(data.len()) <==> store.encrypt && data.len() / 64 >= 0xffff_ffff,
        !store.encrypt ==> store.stored_form(addr, data, nonce) == Ok::<
            Seq<u8>,
            StorageErrorView,
        >(data),
        store.encrypt ==> match store.stored_form(addr, data, nonce) {
            Ok(stored) => {
                &&& stored.take(nonce.len() as int) == nonce
                &&& crypto::aead_sealed(
                    keys::derived_key(
                        store.app_id + ".storage.encryption.v0"@,
                        addr + store.vault_seed + store.secret,
                    ),
                    nonce,
                    data,
                ) == Some(stored.skip(nonce.len() as int))
            },
            Err(e) => e == StorageErrorView::Crypto("aead::Error"@),
        },
{
    crypto::blobs_are_nonce_then_sealed(data, store.key_of(addr), nonce);
}

} // verus!
