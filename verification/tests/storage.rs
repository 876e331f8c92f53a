//! The store end to end: requests served by a librarian over a real vault engine, whose devices
//! are kept in memory.

use std::sync::{Arc, Mutex};

use kete::growth::{
    device_blocks, put_growing, put_grown, put_retried, unix_now, AfterGrow, AfterPut, PutReply,
    INITIAL_TRACT_BLOCKS,
};
use kete::{
    derive_entry_addr, vault_ring_paths, App, FlatStorage, Health, HostDirs, IoError, IoErrorKind,
    Librarian, Posted, RingBase, RingPath, StorageError, VaultOp,
};
use manifestus::{
    verified_replicate, Block, BlockDev, DeletePolicy, Error, Mirror, Vault, BLOCK, HOST_RING_LOG2,
};

const APP: App = App {
    id: "kete-test",
    dir: "kete-test",
};

/// A block device in memory; clones share their blocks, as two handles on one file do.
#[derive(Clone)]
struct MemDev(Arc<Mutex<Vec<u8>>>);

impl MemDev {
    fn new(blocks: u64) -> MemDev {
        MemDev(Arc::new(Mutex::new(vec![0u8; blocks as usize * BLOCK])))
    }
}

impl BlockDev for MemDev {
    fn block_count(&self) -> u64 {
        (self.0.lock().unwrap().len() / BLOCK) as u64
    }

    fn read(&mut self, lba: u64, buf: &mut Block) -> Result<(), Error> {
        let at = lba as usize * BLOCK;
        let bytes = self.0.lock().unwrap();
        if at + BLOCK > bytes.len() {
            return Err(Error::Bounds(lba));
        }
        buf.copy_from_slice(&bytes[at..at + BLOCK]);
        Ok(())
    }

    fn write(&mut self, lba: u64, buf: &Block) -> Result<(), Error> {
        let at = lba as usize * BLOCK;
        let mut bytes = self.0.lock().unwrap();
        if at + BLOCK > bytes.len() {
            return Err(Error::Bounds(lba));
        }
        bytes[at..at + BLOCK].copy_from_slice(buf);
        Ok(())
    }

    fn flush(&mut self) -> Result<(), Error> {
        Ok(())
    }

    fn grow(&mut self, new_blocks: u64) -> Result<(), Error> {
        let want = new_blocks as usize * BLOCK;
        let mut bytes = self.0.lock().unwrap();
        if bytes.len() < want {
            bytes.resize(want, 0);
        }
        Ok(())
    }
}

/// The ring files of a host, by path.
struct Disk {
    files: Vec<(String, MemDev)>,
}

impl Disk {
    fn new() -> Disk {
        Disk { files: Vec::new() }
    }

    fn device(&mut self, path: &RingPath) -> MemDev {
        let mut name = match &path.dir.base {
            RingBase::Config => "config".to_string(),
            RingBase::Data => "data".to_string(),
            RingBase::Named(base) => base.clone(),
        };
        for part in &path.dir.names {
            name = format!("{name}/{part}");
        }
        name = format!("{name}/{}", path.file);
        if let Some((_, dev)) = self.files.iter().find(|(n, _)| *n == name) {
            return dev.clone();
        }
        let dev = MemDev::new(device_blocks(HOST_RING_LOG2));
        self.files.push((name, dev.clone()));
        dev
    }
}

/// The engine and its librarian.
struct Desk {
    vault: Vault<MemDev, MemDev>,
    librarian: Librarian,
    next_ticket: u64,
    /// Whether the next put finds the tract full, whatever the engine would say.
    full: bool,
}

enum Reply {
    Got(Result<Option<Vec<u8>>, String>),
    Done(Result<(), String>),
    Health(bool),
}

fn put_reply(vault: &mut Vault<MemDev, MemDev>, addr: &[u8; 32], stored: &[u8]) -> PutReply {
    match vault.put(addr, stored, unix_now(Some(1))) {
        Ok(()) => PutReply::Stored,
        Err(Error::TractFull) => PutReply::TractFull {
            tract_blocks: vault.tract_blocks(),
            message: Error::TractFull.to_string(),
        },
        Err(e) => PutReply::Failed { message: e.to_string() },
    }
}

impl Desk {
    fn put(&mut self, addr: &[u8; 32], stored: &[u8]) -> Result<(), String> {
        let first = if self.full {
            self.full = false;
            PutReply::TractFull {
                tract_blocks: self.vault.tract_blocks(),
                message: Error::TractFull.to_string(),
            }
        } else {
            put_reply(&mut self.vault, addr, stored)
        };
        let target = match put_growing(first) {
            AfterPut::Finished(r) => return r,
            AfterPut::Grow { target_blocks } => target_blocks,
        };
        match put_grown(self.vault.grow(target, unix_now(Some(1))).map_err(|e| e.to_string())) {
            AfterGrow::Finished(r) => r,
            AfterGrow::Retry => put_retried(put_reply(&mut self.vault, addr, stored)),
        }
    }

    fn perform(&mut self, op: VaultOp) -> Reply {
        match op {
            VaultOp::Get { addr } => Reply::Got(self.vault.get(&addr).map_err(|e| e.to_string())),
            VaultOp::Put { addr, stored } => Reply::Done(self.put(&addr, &stored)),
            VaultOp::Delete { addr } => Reply::Done(
                self.vault.delete(&addr, unix_now(Some(1))).map(|_| ()).map_err(|e| e.to_string()),
            ),
            VaultOp::Degraded => Reply::Health(self.vault.degraded()),
        }
    }

    fn enqueue(&mut self, op: VaultOp) -> u64 {
        self.next_ticket += 1;
        self.librarian.enqueue(self.next_ticket, op);
        self.next_ticket
    }

    fn round(&mut self) -> Vec<(u64, Reply)> {
        let round = self.librarian.next_round();
        let mut replies = Vec::new();
        for read in round.reads {
            let reply = self.perform(read.op);
            replies.push((read.ticket, reply));
        }
        if let Some(mutation) = round.mutation {
            let reply = self.perform(mutation.op);
            replies.push((mutation.ticket, reply));
        }
        replies
    }

    fn serve(&mut self, op: VaultOp) -> Reply {
        let ticket = self.enqueue(op);
        loop {
            for (answered, reply) in self.round() {
                if answered == ticket {
                    return reply;
                }
            }
        }
    }

    fn done(&mut self, op: VaultOp) -> Posted<Result<(), String>> {
        match self.serve(op) {
            Reply::Done(r) => Posted::Replied(r),
            _ => Posted::ThreadGone,
        }
    }

    fn got(&mut self, op: VaultOp) -> Posted<Result<Option<Vec<u8>>, String>> {
        match self.serve(op) {
            Reply::Got(r) => Posted::Replied(r),
            _ => Posted::ThreadGone,
        }
    }
}

fn open_rings(
    disk: &mut Disk,
    app: App,
    seed: &[u8; 32],
    secret: &[u8; 32],
) -> Result<(kete::Replicated, Desk), StorageError> {
    let host = HostDirs::Desktop { has_config: true, has_data: true };
    let paths = vault_ring_paths(app, seed, secret, &host, false)?;
    let mut a = disk.device(&paths[0]);
    let mut b = disk.device(&paths[1]);
    let healed = verified_replicate(&mut a, &mut b, HOST_RING_LOG2).map_err(|e| e.to_string())?;
    let vault = Vault::open(
        Mirror::new(a, b),
        HOST_RING_LOG2,
        unix_now(Some(1)),
        DeletePolicy::ZeroIsErase,
    )
    .map_err(|e| e.to_string())?;
    Ok((
        kete::Replicated { spine_copied: healed.spine_copied, tract_copied: healed.tract_copied },
        Desk { vault, librarian: Librarian::new(), next_ticket: 0, full: false },
    ))
}

fn open(disk: &mut Disk, app: App, seed: [u8; 32], secret: [u8; 32]) -> (FlatStorage, Desk) {
    let (healed, desk) = open_rings(disk, app, &seed, &secret).unwrap();
    (FlatStorage::new(app, seed, secret, Ok(healed)).unwrap(), desk)
}

fn write(s: &FlatStorage, desk: &mut Desk, key: &str, data: &[u8]) -> Result<(), StorageError> {
    let request = s.write(key, data)?;
    s.finish_write(desk.done(request))
}

fn read(s: &FlatStorage, desk: &mut Desk, key: &str) -> Result<Option<Vec<u8>>, StorageError> {
    let outcome = desk.got(s.read(key));
    s.finish_read(key, outcome)
}

fn delete(s: &FlatStorage, desk: &mut Desk, key: &str) -> Result<(), StorageError> {
    s.finish_delete(desk.done(s.delete(key)))
}

fn write_addr(
    s: &FlatStorage,
    desk: &mut Desk,
    addr: &[u8; 32],
    data: &[u8],
) -> Result<(), StorageError> {
    let request = s.write_addr(addr, data)?;
    s.finish_write(desk.done(request))
}

fn read_addr(
    s: &FlatStorage,
    desk: &mut Desk,
    addr: &[u8; 32],
) -> Result<Option<Vec<u8>>, StorageError> {
    let outcome = desk.got(s.read_addr(addr));
    s.finish_read_addr(addr, outcome)
}

fn delete_addr(s: &FlatStorage, desk: &mut Desk, addr: &[u8; 32]) -> Result<(), StorageError> {
    s.finish_delete(desk.done(s.delete_addr(addr)))
}

#[test]
fn vault_round_trip() {
    let mut disk = Disk::new();
    let (store, mut desk) = open(&mut disk, APP, [0x11; 32], [3u8; 32]);
    assert!(read(&store, &mut desk, "k").unwrap().is_none());
    write(&store, &mut desk, "k", b"value").unwrap();
    assert_eq!(read(&store, &mut desk, "k").unwrap().as_deref(), Some(&b"value"[..]));
    write(&store, &mut desk, "k", b"updated").unwrap();
    assert_eq!(read(&store, &mut desk, "k").unwrap().as_deref(), Some(&b"updated"[..]));
    delete(&store, &mut desk, "k").unwrap();
    assert!(read(&store, &mut desk, "k").unwrap().is_none());
}

#[test]
fn secret_separates_vaults() {
    // Same app and seed, different secret: a different vault file, so one device's data is
    // invisible to the other.
    let mut disk = Disk::new();
    let (a, mut desk_a) = open(&mut disk, APP, [0x22; 32], [1u8; 32]);
    write(&a, &mut desk_a, "secret", b"hunter2").unwrap();
    let (b, mut desk_b) = open(&mut disk, APP, [0x22; 32], [2u8; 32]);
    assert!(read(&b, &mut desk_b, "secret").unwrap().is_none());
    assert_eq!(disk.files.len(), 4);
}

#[test]
fn a_full_tract_grows_instead_of_dying() {
    // Well past the 16MB initial tract with values that stay live: without growth every write past
    // the lap would die. A sample is read back across the growth boundary.
    let mut disk = Disk::new();
    let (store, mut desk) = open(&mut disk, APP, [0x55; 32], [6u8; 32]);
    let chunk = vec![0xCD_u8; 256 * 1024];
    for i in 0u8..96 {
        let addr = [i; 32];
        write_addr(&store, &mut desk, &addr, &chunk).unwrap();
    }
    assert!(desk.vault.tract_blocks() > INITIAL_TRACT_BLOCKS);
    for i in [0u8, 47, 95] {
        let got = read_addr(&store, &mut desk, &[i; 32]).unwrap().expect("value survives growth");
        assert_eq!(got.len(), chunk.len());
        assert!(got.iter().all(|b| *b == 0xCD));
    }
}

#[test]
fn a_put_into_a_full_tract_doubles_it_and_lands() {
    let mut disk = Disk::new();
    let (store, mut desk) = open(&mut disk, APP, [0x56; 32], [6u8; 32]);
    write(&store, &mut desk, "before", b"kept").unwrap();
    desk.full = true;
    write(&store, &mut desk, "during", b"landed").unwrap();
    assert_eq!(desk.vault.tract_blocks(), 2 * INITIAL_TRACT_BLOCKS);
    assert_eq!(read(&store, &mut desk, "before").unwrap().as_deref(), Some(&b"kept"[..]));
    assert_eq!(read(&store, &mut desk, "during").unwrap().as_deref(), Some(&b"landed"[..]));
}

#[test]
fn concurrent_writers_and_readers_hold_read_your_writes() {
    // Four writers on disjoint addresses, their requests interleaved in one queue: each waits for
    // its write's reply, then reads, and must see its own write. Every even value is fat.
    let mut disk = Disk::new();
    let (store, mut desk) = open(&mut disk, APP, [0x44; 32], [5u8; 32]);
    let fat = vec![0xAB_u8; 512 * 1024];
    let addr_of = |t: u8, i: u8| [t.wrapping_mul(64).wrapping_add(i); 32];
    let value_of = |t: u8, i: u8| if i % 2 == 0 { fat.clone() } else { vec![t, i] };

    // What each writer waits for: its step, and the ticket of its write or its read.
    let mut step = [0u8; 4];
    let mut writing: [Option<u64>; 4] = [None; 4];
    let mut reading: [Option<u64>; 4] = [None; 4];
    for t in 0u8..4 {
        let request = store.write_addr(&addr_of(t, 0), &value_of(t, 0)).unwrap();
        writing[t as usize] = Some(desk.enqueue(request));
    }
    while step.iter().any(|s| *s < 8) {
        let replies = desk.round();
        assert!(!replies.is_empty());
        for (ticket, reply) in replies {
            for t in 0u8..4 {
                let w = t as usize;
                if writing[w] == Some(ticket) {
                    writing[w] = None;
                    match &reply {
                        Reply::Done(r) => assert!(r.is_ok()),
                        _ => panic!("a write is answered as one"),
                    }
                    reading[w] = Some(desk.enqueue(store.read_addr(&addr_of(t, step[w]))));
                } else if reading[w] == Some(ticket) {
                    reading[w] = None;
                    let got = match &reply {
                        Reply::Got(r) => r.clone(),
                        _ => panic!("a read is answered as one"),
                    };
                    let addr = addr_of(t, step[w]);
                    let value = store.finish_read_addr(&addr, Posted::Replied(got)).unwrap();
                    assert_eq!(value.as_deref(), Some(&value_of(t, step[w])[..]));
                    step[w] += 1;
                    if step[w] < 8 {
                        let request = store
                            .write_addr(&addr_of(t, step[w]), &value_of(t, step[w]))
                            .unwrap();
                        writing[w] = Some(desk.enqueue(request));
                    }
                }
            }
        }
    }
    assert!(desk.librarian.is_idle());
}

#[test]
fn plaintext_round_trip() {
    let mut disk = Disk::new();
    let (healed, mut desk) = open_rings(&mut disk, APP, &[0x33; 32], &[4u8; 32]).unwrap();
    let store = FlatStorage::new_plaintext(APP, [0x33; 32], [4u8; 32], Ok(healed)).unwrap();
    write(&store, &mut desk, "k", b"in the clear").unwrap();
    assert_eq!(read(&store, &mut desk, "k").unwrap().as_deref(), Some(&b"in the clear"[..]));
    delete(&store, &mut desk, "k").unwrap();
    assert!(read(&store, &mut desk, "k").unwrap().is_none());
}

#[test]
fn a_vault_reopens_with_what_it_held() {
    let mut disk = Disk::new();
    {
        let (store, mut desk) = open(&mut disk, APP, [0x66; 32], [7u8; 32]);
        write(&store, &mut desk, "kept", b"across a reopening").unwrap();
    }
    let (store, mut desk) = open(&mut disk, APP, [0x66; 32], [7u8; 32]);
    assert_eq!(
        read(&store, &mut desk, "kept").unwrap().as_deref(),
        Some(&b"across a reopening"[..])
    );
}

#[test]
fn strings_and_addresses_name_the_same_entry() {
    let mut disk = Disk::new();
    let (store, mut desk) = open(&mut disk, APP, [0x77; 32], [8u8; 32]);
    let addr = derive_entry_addr("kete-test", "by-name");
    write(&store, &mut desk, "by-name", b"one entry").unwrap();
    assert_eq!(read_addr(&store, &mut desk, &addr).unwrap().as_deref(), Some(&b"one entry"[..]));
    write_addr(&store, &mut desk, &addr, b"still one").unwrap();
    assert_eq!(read(&store, &mut desk, "by-name").unwrap().as_deref(), Some(&b"still one"[..]));
    delete_addr(&store, &mut desk, &addr).unwrap();
    assert!(read(&store, &mut desk, "by-name").unwrap().is_none());
}

#[test]
fn other_entries_survive_a_delete() {
    let mut disk = Disk::new();
    let (store, mut desk) = open(&mut disk, APP, [0x78; 32], [8u8; 32]);
    write(&store, &mut desk, "a", b"first").unwrap();
    write(&store, &mut desk, "b", b"second").unwrap();
    delete(&store, &mut desk, "a").unwrap();
    assert!(read(&store, &mut desk, "a").unwrap().is_none());
    assert_eq!(read(&store, &mut desk, "b").unwrap().as_deref(), Some(&b"second"[..]));
}

#[test]
fn a_sealed_value_never_shows_its_plaintext() {
    let store = FlatStorage::new(
        APP,
        [1u8; 32],
        [2u8; 32],
        Ok(kete::Replicated { spine_copied: 0, tract_copied: 0 }),
    )
    .unwrap();
    let data = b"something long enough to be searched for";
    match store.write("k", data).unwrap() {
        VaultOp::Put { addr, stored } => {
            assert_eq!(addr, derive_entry_addr("kete-test", "k"));
            assert_eq!(stored.len(), 12 + data.len() + 16);
            assert!(!stored.windows(data.len()).any(|w| w == data));
            let back = store.finish_read("k", Posted::Replied(Ok(Some(stored)))).unwrap();
            assert_eq!(back.as_deref(), Some(&data[..]));
        }
        _ => panic!("a write asks for a put"),
    }
}

#[test]
fn a_plaintext_store_keeps_the_bytes() {
    let store = FlatStorage::new_plaintext(
        APP,
        [1u8; 32],
        [2u8; 32],
        Ok(kete::Replicated { spine_copied: 0, tract_copied: 0 }),
    )
    .unwrap();
    match store.write_addr(&[9u8; 32], b"as it is").unwrap() {
        VaultOp::Put { addr, stored } => {
            assert_eq!(addr, [9u8; 32]);
            assert_eq!(stored, b"as it is");
        }
        _ => panic!("a write asks for a put"),
    }
    assert_eq!(store.stored_with_nonce(&[9u8; 32], b"as it is", &[0u8; 12]).unwrap(), b"as it is");
}

#[test]
fn the_stored_form_is_the_value_under_its_own_key() {
    let store = FlatStorage::new(
        APP,
        [1u8; 32],
        [2u8; 32],
        Ok(kete::Replicated { spine_copied: 0, tract_copied: 0 }),
    )
    .unwrap();
    let addr = [7u8; 32];
    let key = kete::derive_addr_key("kete-test", &addr, &[1u8; 32], &[2u8; 32]);
    let stored = store.stored_with_nonce(&addr, b"value", &[3u8; 12]).unwrap();
    assert_eq!(stored, kete::crypto::encrypt_with_nonce(b"value", &key, &[3u8; 12]).unwrap());
    assert_eq!(kete::decrypt_bytes(&stored, &key).unwrap(), b"value");
}

#[test]
fn a_value_is_bound_to_its_address() {
    let store = FlatStorage::new(
        APP,
        [1u8; 32],
        [2u8; 32],
        Ok(kete::Replicated { spine_copied: 0, tract_copied: 0 }),
    )
    .unwrap();
    let stored = match store.write_addr(&[1u8; 32], b"mine").unwrap() {
        VaultOp::Put { stored, .. } => stored,
        _ => panic!("a write asks for a put"),
    };
    let there = store.finish_read_addr(&[1u8; 32], Posted::Replied(Ok(Some(stored.clone()))));
    assert_eq!(there.unwrap().as_deref(), Some(&b"mine"[..]));
    match store.finish_read_addr(&[2u8; 32], Posted::Replied(Ok(Some(stored)))) {
        Err(StorageError::Crypto(message)) => assert_eq!(message, "aead::Error"),
        _ => panic!("the bytes are another address's"),
    }
}

#[test]
fn a_writer_reads_its_latest_write() {
    let mut disk = Disk::new();
    let (store, mut desk) = open(&mut disk, APP, [0x7a; 32], [8u8; 32]);
    for n in 0u8..5 {
        write(&store, &mut desk, "again", &[n; 3]).unwrap();
        assert_eq!(read(&store, &mut desk, "again").unwrap(), Some(vec![n; 3]));
    }
}

#[test]
fn two_directories_are_two_vaults() {
    let mut disk = Disk::new();
    let (a, mut desk_a) = open(&mut disk, App { id: "x", dir: "A" }, [1u8; 32], [2u8; 32]);
    let (b, mut desk_b) = open(&mut disk, App { id: "x", dir: "B" }, [1u8; 32], [2u8; 32]);
    write(&a, &mut desk_a, "k", b"in A").unwrap();
    assert!(read(&b, &mut desk_b, "k").unwrap().is_none());
    assert_eq!(read(&a, &mut desk_a, "k").unwrap().as_deref(), Some(&b"in A"[..]));
}

fn vault_error<T>(r: Result<T, StorageError>) -> String {
    match r {
        Err(StorageError::Vault(message)) => message,
        _ => panic!("expected a vault error"),
    }
}

#[test]
fn a_lost_librarian_is_a_vault_error() {
    let store = FlatStorage::new(
        APP,
        [1u8; 32],
        [2u8; 32],
        Ok(kete::Replicated { spine_copied: 0, tract_copied: 0 }),
    )
    .unwrap();
    assert_eq!(vault_error(store.finish_write(Posted::LockPoisoned)), "vault mailbox lock poisoned");
    assert_eq!(vault_error(store.finish_delete(Posted::ThreadGone)), "vault thread gone");
    assert_eq!(vault_error(store.finish_read("k", Posted::ThreadGone)), "vault thread gone");
    assert_eq!(
        vault_error(store.finish_write(Posted::Replied(Err("tract full".to_string())))),
        "tract full"
    );
    assert_eq!(
        vault_error(store.finish_read("k", Posted::Replied(Err("seal".to_string())))),
        "seal"
    );
}

#[test]
fn a_value_that_does_not_open_is_a_crypto_error() {
    let store = FlatStorage::new(
        APP,
        [1u8; 32],
        [2u8; 32],
        Ok(kete::Replicated { spine_copied: 0, tract_copied: 0 }),
    )
    .unwrap();
    match store.finish_read("k", Posted::Replied(Ok(Some(vec![0u8; 27])))) {
        Err(StorageError::Crypto(message)) => assert_eq!(
            message,
            "ciphertext too short: 27 bytes (need ≥ 28 for nonce + auth tag)"
        ),
        _ => panic!("27 bytes hold no value"),
    }
    match store.finish_read("k", Posted::Replied(Ok(Some(vec![0u8; 28])))) {
        Err(StorageError::Crypto(message)) => assert_eq!(message, "aead::Error"),
        _ => panic!("zeros are no sealed value"),
    }
}

#[test]
fn a_store_reports_its_mirrors() {
    let opened = |spine, tract| {
        FlatStorage::new(
            APP,
            [1u8; 32],
            [2u8; 32],
            Ok(kete::Replicated { spine_copied: spine, tract_copied: tract }),
        )
        .unwrap()
    };
    let healthy = opened(0, 0);
    assert!(matches!(healthy.degraded(), Health::Ask(VaultOp::Degraded)));
    assert!(!healthy.finish_degraded(Posted::Replied(false)));
    assert!(healthy.finish_degraded(Posted::Replied(true)));
    assert!(healthy.finish_degraded(Posted::ThreadGone));
    assert!(healthy.finish_degraded(Posted::LockPoisoned));
    for healed in [opened(1, 0), opened(0, 1)] {
        assert!(matches!(healed.degraded(), Health::Degraded));
        assert!(healed.finish_degraded(Posted::Replied(false)));
    }
    assert_eq!(healthy.vault_seed(), &[1u8; 32]);
}

#[test]
fn a_fresh_vault_is_not_degraded() {
    let mut disk = Disk::new();
    let (_store, mut desk) = open(&mut disk, APP, [0x79; 32], [8u8; 32]);
    match desk.serve(VaultOp::Degraded) {
        Reply::Health(degraded) => assert!(!degraded),
        _ => panic!("health is answered as such"),
    }
}

#[test]
fn rings_that_do_not_open_make_no_store() {
    let failed = StorageError::Io(IoError {
        kind: IoErrorKind::NotFound,
        text: "config directory not found".to_string(),
    });
    match FlatStorage::new(APP, [1u8; 32], [2u8; 32], Err(failed)) {
        Err(StorageError::Io(e)) => {
            assert_eq!(e.kind, IoErrorKind::NotFound);
            assert_eq!(e.text, "config directory not found");
        }
        _ => panic!("no rings, no store"),
    }
}
