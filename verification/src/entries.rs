//! The entries the inspection tool decrypts: which addresses they are at, what is found there, and
//! the exit code that sums it all up.

use crate::args::Args;
use crate::crypto;
use crate::crypto::decrypt_bytes;
use crate::error::StorageErrorView;
use crate::hex;
use crate::hex::parse_hex32;
use crate::keys;
use crate::keys::{derive_addr_key, derive_entry_addr, derive_scoped_addr};
use crate::storage::StorageView;
use crate::text::chars_of;
use vstd::prelude::*;

verus! {

/// How an entry was asked for.
pub enum Label {
    /// By a logical string key.
    Key(String),
    /// By a domain within a scope.
    Domain(String),
    /// By an address, of which these are the first digits.
    Addr(String),
}

/// An entry to decrypt.
pub struct Target {
    pub label: Label,
    pub addr: [u8; 32],
}

/// [`Label`] as plain mathematics.
#[verifier::ext_equal]
pub enum LabelView {
    Key(Seq<char>),
    Domain(Seq<char>),
    Addr(Seq<char>),
}

/// [`Target`] as plain mathematics.
#[verifier::ext_equal]
pub struct TargetView {
    pub label: LabelView,
    pub addr: Seq<u8>,
}

impl View for Label {
    type V = LabelView;

    open spec fn view(&self) -> LabelView {
        match self {
            Label::Key(s) => LabelView::Key(s@),
            Label::Domain(s) => LabelView::Domain(s@),
            Label::Addr(s) => LabelView::Addr(s@),
        }
    }
}

impl View for Target {
    type V = TargetView;

    open spec fn view(&self) -> TargetView {
        TargetView { label: self.label@, addr: self.addr@ }
    }
}

/// Why no list of entries could be made.
#[derive(Debug, Clone, Copy, PartialEq, Eq, Structural)]
pub enum TargetError {
    /// The scope is not 64 hexadecimal digits.
    BadScope,
    /// An address is not 64 hexadecimal digits.
    BadAddr,
}

/// Targets as plain mathematics.
pub open spec fn targets_seen(targets: Seq<Target>) -> Seq<TargetView> {
    targets.map_values(|t: Target| t@)
}

/// The entry of a logical key.
pub open spec fn key_target(id: Seq<char>, key: Seq<char>) -> TargetView {
    TargetView { label: LabelView::Key(key), addr: keys::entry_addr(id, key) }
}

/// The entry of a domain within a scope.
pub open spec fn domain_target(id: Seq<char>, domain: Seq<char>, scope: Seq<u8>) -> TargetView {
    TargetView { label: LabelView::Domain(domain), addr: keys::scoped_addr(id, domain, scope) }
}

/// The entry at an address given in 64 digits.
pub open spec fn addr_target(digits: Seq<char>) -> TargetView {
    TargetView { label: LabelView::Addr(digits.take(16)), addr: hex::hex32(digits).unwrap() }
}

/// The scope of domain entries: the one given, or the vault's own seed. Nothing where the one given
/// is malformed.
pub open spec fn scope_of(scope: Option<Seq<char>>, seed: Seq<u8>) -> Option<Seq<u8>> {
    match scope {
        Some(digits) => hex::hex32(digits),
        None => Some(seed),
    }
}

/// The entries to decrypt: those of the keys, then those of the domains, then the addresses.
pub open spec fn targets(
    id: Seq<char>,
    seed: Seq<u8>,
    key_names: Seq<Seq<char>>,
    domains: Seq<Seq<char>>,
    addrs: Seq<Seq<char>>,
    scope: Option<Seq<char>>,
) -> Result<Seq<TargetView>, TargetError> {
    match scope_of(scope, seed) {
        None => Err(TargetError::BadScope),
        Some(within) => if forall|i: int|
            0 <= i < addrs.len() ==> hex::hex32(#[trigger] addrs[i]) is Some {
            Ok(
                key_names.map_values(|k: Seq<char>| key_target(id, k)) + domains.map_values(
                    |d: Seq<char>| domain_target(id, d, within),
                ) + addrs.map_values(|a: Seq<char>| addr_target(a)),
            )
        } else {
            Err(TargetError::BadAddr)
        },
    }
}

/// The first `n` characters of `s`.
fn head(s: &str, n: usize) -> (start: String)
    requires
        n <= s@.len(),
    ensures
        start@ == s@.take(n as int),
{
    let chars = chars_of(s);
    let mut start = String::new();
    for i in 0..n
        invariant
            n <= chars@.len(),
            chars@ == s@,
            start@ == s@.take(i as int),
    {
        start.push(chars[i]);
        assert(start@ == s@.take(i as int + 1));
    }
    start
}

/// Lists the entries that the arguments ask for in the app `id`, for a vault of `seed`.
pub fn gather_targets(id: &str, seed: &[u8; 32], asked: &Args) -> (list: Result<
    Vec<Target>,
    TargetError,
>)
    ensures
        match list {
            Ok(found) => targets(
                id@,
                seed@,
                asked@.keys,
                asked@.domains,
                asked@.addrs,
                asked@.scope,
            ) == Ok::<Seq<TargetView>, TargetError>(targets_seen(found@)),
            Err(e) => targets(
                id@,
                seed@,
                asked@.keys,
                asked@.domains,
                asked@.addrs,
                asked@.scope,
            ) == Err::<Seq<TargetView>, TargetError>(e),
        },
        match list {
            Ok(found) => {
                let keys_n = asked.keys@.len();
                let domains_n = asked.domains@.len();
                let addrs_n = asked.addrs@.len();
                let within = match asked.scope {
                    Some(digits) => hex::hex32(digits@).unwrap(),
                    None => seed@,
                };
                &&& asked.scope matches Some(digits) ==> hex::hex32(digits@) is Some
                &&& found@.len() == keys_n + domains_n + addrs_n
                &&& forall|i: int|
                    0 <= i < keys_n ==> {
                        &&& (#[trigger] found@[i]).label matches Label::Key(name) && name@
                            == asked.keys@[i]@
                        &&& found@[i].addr@ == keys::derived_key(
                            id@ + ".storage.entry.v0"@,
                            vstd::utf8::encode_utf8(asked.keys@[i]@),
                        )
                    }
                &&& forall|i: int|
                    keys_n <= i < keys_n + domains_n ==> {
                        &&& (#[trigger] found@[i]).label matches Label::Domain(name) && name@
                            == asked.domains@[i - keys_n]@
                        &&& found@[i].addr@ == keys::derived_key(
                            id@ + ".storage.entry.v0"@,
                            vstd::utf8::encode_utf8(asked.domains@[i - keys_n]@) + within,
                        )
                    }
                &&& forall|i: int|
                    keys_n + domains_n <= i < found@.len() ==> {
                        &&& (#[trigger] found@[i]).label matches Label::Addr(start) && start@
                            == asked.addrs@[i - keys_n - domains_n]@.take(16)
                        &&& hex::hex32(asked.addrs@[i - keys_n - domains_n]@) == Some(
                            found@[i].addr@,
                        )
                    }
            },
            Err(TargetError::BadScope) => asked.scope matches Some(digits) && hex::hex32(
                digits@,
            ) is None,
            Err(TargetError::BadAddr) => {
                &&& asked.scope matches Some(digits) ==> hex::hex32(digits@) is Some
                &&& exists|i: int|
                    0 <= i < asked.addrs@.len() && hex::hex32(#[trigger] asked.addrs@[i]@) is None
            },
        },
{
    let ghost by_key = |k: Seq<char>| key_target(id@, k);
    let ghost by_addr = |a: Seq<char>| addr_target(a);
    let mut list: Vec<Target> = Vec::new();
    for i in 0..asked.keys.len()
        invariant
            by_key == (|k: Seq<char>| key_target(id@, k)),
            targets_seen(list@) == asked@.keys.take(i as int).map_values(by_key),
            list@.len() == i,
            forall|j: int|
                0 <= j < i ==> {
                    &&& (#[trigger] list@[j]).label matches Label::Key(name) && name@
                        == asked.keys@[j]@
                    &&& list@[j].addr@ == keys::derived_key(
                        id@ + ".storage.entry.v0"@,
                        vstd::utf8::encode_utf8(asked.keys@[j]@),
                    )
                },
    {
        let ghost before = list@;
        let key = asked.keys[i].as_str();
        list.push(
            Target { label: Label::Key(key.to_owned()), addr: derive_entry_addr(id, key) },
        );
        assert(targets_seen(list@) == targets_seen(before).push(by_key(key@)));
        assert(asked@.keys.take(i as int + 1).map_values(by_key) == asked@.keys.take(
            i as int,
        ).map_values(by_key).push(by_key(key@)));
    }
    assert(asked@.keys.take(asked@.keys.len() as int) == asked@.keys);
    let scope: [u8; 32] = match &asked.scope {
        Some(digits) => match parse_hex32(digits.as_str()) {
            Some(bytes) => bytes,
            None => return Err(TargetError::BadScope),
        },
        None => *seed,
    };
    let ghost by_domain = |d: Seq<char>| domain_target(id@, d, scope@);
    let ghost keyed = list@;
    for i in 0..asked.domains.len()
        invariant
            by_domain == (|d: Seq<char>| domain_target(id@, d, scope@)),
            targets_seen(list@) == targets_seen(keyed) + asked@.domains.take(i as int).map_values(
                by_domain,
            ),
            keyed.len() == asked.keys@.len(),
            list@.len() == keyed.len() + i,
            forall|j: int| 0 <= j < keyed.len() ==> #[trigger] list@[j] == keyed[j],
            forall|j: int|
                keyed.len() <= j < keyed.len() + i ==> {
                    &&& (#[trigger] list@[j]).label matches Label::Domain(name) && name@
                        == asked.domains@[j - keyed.len()]@
                    &&& list@[j].addr@ == keys::derived_key(
                        id@ + ".storage.entry.v0"@,
                        vstd::utf8::encode_utf8(asked.domains@[j - keyed.len()]@) + scope@,
                    )
                },
    {
        let ghost before = list@;
        let domain = asked.domains[i].as_str();
        list.push(
            Target {
                label: Label::Domain(domain.to_owned()),
                addr: derive_scoped_addr(id, domain, &scope),
            },
        );
        assert(targets_seen(list@) == targets_seen(before).push(by_domain(domain@)));
        assert(asked@.domains.take(i as int + 1).map_values(by_domain) == asked@.domains.take(
            i as int,
        ).map_values(by_domain).push(by_domain(domain@)));
    }
    assert(asked@.domains.take(asked@.domains.len() as int) == asked@.domains);
    let ghost scoped = list@;
    for i in 0..asked.addrs.len()
        invariant
            by_addr == (|a: Seq<char>| addr_target(a)),
            scope_of(asked@.scope, seed@) == Some(scope@),
            targets_seen(list@) == targets_seen(scoped) + asked@.addrs.take(i as int).map_values(
                by_addr,
            ),
            forall|j: int| 0 <= j < i ==> hex::hex32(#[trigger] asked@.addrs[j]) is Some,
            asked.scope matches Some(digits) ==> hex::hex32(digits@) == Some(scope@),
            scoped.len() == asked.keys@.len() + asked.domains@.len(),
            list@.len() == scoped.len() + i,
            forall|j: int| 0 <= j < scoped.len() ==> #[trigger] list@[j] == scoped[j],
            forall|j: int|
                scoped.len() <= j < scoped.len() + i ==> {
                    &&& (#[trigger] list@[j]).label matches Label::Addr(start) && start@
                        == asked.addrs@[j - scoped.len()]@.take(16)
                    &&& hex::hex32(asked.addrs@[j - scoped.len()]@) == Some(list@[j].addr@)
                },
    {
        let ghost before = list@;
        let digits = asked.addrs[i].as_str();
        assert(asked@.addrs[i as int] == digits@);
        match parse_hex32(digits) {
            Some(addr) => {
                list.push(Target { label: Label::Addr(head(digits, 16)), addr });
                assert(targets_seen(list@) == targets_seen(before).push(by_addr(digits@)));
                assert(asked@.addrs.take(i as int + 1).map_values(by_addr) == asked@.addrs.take(
                    i as int,
                ).map_values(by_addr).push(by_addr(digits@)));
            },
            None => {
                assert(hex::hex32(asked.addrs@[i as int]@) is None);
                return Err(TargetError::BadAddr);
            },
        }
    }
    assert(asked@.addrs.take(asked@.addrs.len() as int) == asked@.addrs);
    assert forall|j: int| 0 <= j < keyed.len() implies #[trigger] list@[j] == keyed[j] by {
        assert(scoped[j] == keyed[j]);
    }
    Ok(list)
}

/// What was found at an entry's address.
pub enum Found {
    /// This value.
    Value(Vec<u8>),
    /// Something that does not open, with the cipher's complaint.
    Sealed(String),
    /// Nothing.
    Absent,
    /// The engine could not read there, and said why.
    Unreadable(String),
}

/// [`Found`] as plain mathematics.
#[verifier::ext_equal]
pub enum FoundView {
    Value(Seq<u8>),
    Sealed(Seq<char>),
    Absent,
    Unreadable(Seq<char>),
}

impl View for Found {
    type V = FoundView;

    open spec fn view(&self) -> FoundView {
        match self {
            Found::Value(bytes) => FoundView::Value(bytes@),
            Found::Sealed(message) => FoundView::Sealed(message@),
            Found::Absent => FoundView::Absent,
            Found::Unreadable(message) => FoundView::Unreadable(message@),
        }
    }
}

/// What bytes under the cipher key `key` come to.
pub open spec fn found_in(stored: Seq<u8>, key: Seq<u8>) -> FoundView {
    match crypto::decrypted(stored, key) {
        Ok(plaintext) => FoundView::Value(plaintext),
        Err(message) => FoundView::Sealed(message),
    }
}

impl Found {
    /// Whether the entry is there but could not be shown.
    pub open spec fn fails(&self) -> bool {
        self is Sealed || self is Unreadable
    }

    /// Whether the entry is there but could not be shown.
    pub fn failed(&self) -> (failed: bool)
        ensures
            failed == self.fails(),
            failed <==> self is Sealed || self is Unreadable,
    {
        match self {
            Found::Sealed(_) => true,
            Found::Unreadable(_) => true,
            _ => false,
        }
    }
}

/// Opens what the engine returned for `addr`, with the one cipher key that the store itself would
/// use.
pub fn open_entry(
    id: &str,
    addr: &[u8; 32],
    vault_seed: &[u8; 32],
    secret: &[u8; 32],
    got: Result<Option<Vec<u8>>, String>,
) -> (found: Found)
    ensures
        found@ == (match got {
            Ok(Some(stored)) => found_in(
                stored@,
                keys::addr_key(id@, addr@, vault_seed@, secret@),
            ),
            Ok(None) => FoundView::Absent,
            Err(message) => FoundView::Unreadable(message@),
        }),
        match got {
            Ok(Some(stored)) => {
                let opened = crypto::aead_opened(
                    keys::derived_key(
                        id@ + ".storage.encryption.v0"@,
                        addr@ + vault_seed@ + secret@,
                    ),
                    stored@.take(12),
                    stored@.skip(12),
                );
                let opens = stored@.len() >= 28 && opened is Some && !(64 * 0xffff_fffe
                    < stored@.len() - 28 < 64 * 0xffff_ffff);
                &&& opens ==> (found matches Found::Value(value) && opened == Some(value@))
                &&& !opens ==> (found matches Found::Sealed(told) && told@ == if stored@.len() < 28 {
                    "ciphertext too short: "@ + crate::text::decimal_text(stored@.len())
                        + " bytes (need ≥ 28 for nonce + auth tag)"@
                } else {
                    "aead::Error"@
                })
            },
            Ok(None) => found is Absent,
            Err(message) => found matches Found::Unreadable(told) && told@ == message@,
        },
{
    match got {
        Ok(Some(stored)) => {
            let key = derive_addr_key(id, addr, vault_seed, secret);
            match decrypt_bytes(stored.as_slice(), &key) {
                Ok(plaintext) => Found::Value(plaintext),
                Err(message) => Found::Sealed(message),
            }
        },
        Ok(None) => Found::Absent,
        Err(message) => Found::Unreadable(message),
    }
}

/// The exit code for entries of which `failures` say whether each failed: two as soon as one did.
pub fn decrypt_exit(failures: &Vec<bool>) -> (code: u8)
    ensures
        code == (if failures@.contains(true) {
            2u8
        } else {
            0u8
        }),
{
    for i in 0..failures.len()
        invariant
            forall|j: int| 0 <= j < i ==> !failures@[j],
    {
        if failures[i] {
            assert(failures@[i as int] == true);
            return 2;
        }
    }
    0
}

/// The exit code for a file whose structure was inspected: `passed` says whether all checks passed,
/// and is missing where the file could not be opened or inspected.
pub fn structural_exit(passed: Option<bool>) -> (code: u8)
    ensures
        code == (match passed {
            Some(true) => 0u8,
            Some(false) => 2u8,
            None => 1u8,
        }),
{
    match passed {
        Some(true) => 0,
        Some(false) => 2,
        None => 1,
    }
}

/// The tool sees what the store's own reader sees: for an encrypted store of the same app, seed and
/// secret, it finds a value exactly where a read gives that value, and the cipher's complaint
/// exactly where a read fails with it.
pub proof fn the_tool_reads_like_the_store(store: StorageView, addr: Seq<u8>, stored: Seq<u8>)
    requires
        store.encrypt,
    ensures
        match store.read_of(addr, Some(stored)) {
            Ok(Some(value)) => found_in(stored, store.key_of(addr)) == FoundView::Value(value),
            Err(StorageErrorView::Crypto(message)) => found_in(stored, store.key_of(addr))
                == FoundView::Sealed(message),
            _ => false,
        },
{
}

/// A key asked for on the command line is looked for where the store writes it.
pub proof fn keys_are_looked_for_where_they_are_written(store: StorageView, key: Seq<char>)
    ensures
        key_target(store.app_id, key).addr == store.addr_of(key),
{
}

/// Each entry is looked up at its own address: the keys first, each at the hash of the whole key; then
/// the domains, each at the hash of the whole domain and the scope; then the addresses as given. Each
/// keeps its own name, none is left out, and the order is that of the command line.
pub proof fn entries_are_looked_up_at_their_own_address(
    id: Seq<char>,
    seed: Seq<u8>,
    key_names: Seq<Seq<char>>,
    domains: Seq<Seq<char>>,
    addrs: Seq<Seq<char>>,
    scope: Option<Seq<char>>,
    i: int,
)
    requires
        targets(id, seed, key_names, domains, addrs, scope) is Ok,
    ensures
        ({
            let list = targets(id, seed, key_names, domains, addrs, scope)->Ok_0;
            &&& list.len() == key_names.len() + domains.len() + addrs.len()
            &&& 0 <= i < key_names.len() ==> list[i] == (TargetView {
                label: LabelView::Key(key_names[i]),
                addr: keys::derived_key(
                    id + ".storage.entry.v0"@,
                    vstd::utf8::encode_utf8(key_names[i]),
                ),
            })
            &&& 0 <= i < domains.len() && scope is None ==> list[key_names.len() + i] == (
            TargetView {
                label: LabelView::Domain(domains[i]),
                addr: keys::derived_key(
                    id + ".storage.entry.v0"@,
                    vstd::utf8::encode_utf8(domains[i]) + seed,
                ),
            })
            &&& 0 <= i < domains.len() && scope is Some ==> hex::hex32(scope->0) is Some
                && list[key_names.len() + i] == (TargetView {
                label: LabelView::Domain(domains[i]),
                addr: keys::derived_key(
                    id + ".storage.entry.v0"@,
                    vstd::utf8::encode_utf8(domains[i]) + hex::hex32(scope->0)->0,
                ),
            })
            &&& 0 <= i < addrs.len() ==> {
                let at = list[key_names.len() + domains.len() + i];
                &&& hex::hex32(addrs[i]) == Some(at.addr)
                &&& at.label == LabelView::Addr(addrs[i].take(16))
            }
        }),
{
    let list = targets(id, seed, key_names, domains, addrs, scope)->Ok_0;
    if 0 <= i < addrs.len() {
        assert(hex::hex32(addrs[i]) is Some);
    }
}

/// A list is refused only for what is malformed: the scope, or some address.
pub proof fn only_malformed_entries_are_refused(
    id: Seq<char>,
    seed: Seq<u8>,
    key_names: Seq<Seq<char>>,
    domains: Seq<Seq<char>>,
    addrs: Seq<Seq<char>>,
    scope: Option<Seq<char>>,
)
    ensures
        targets(id, seed, key_names, domains, addrs, scope) == Err::<Seq<TargetView>, _>(
            TargetError::BadScope,
        ) <==> scope is Some && hex::hex32(scope->0) is None,
        targets(id, seed, key_names, domains, addrs, scope) == Err::<Seq<TargetView>, _>(
            TargetError::BadAddr,
        ) <==> !(scope is Some && hex::hex32(scope->0) is None) && exists|i: int|
            0 <= i < addrs.len() && hex::hex32(#[trigger] addrs[i]) is None,
{
}

/// An entry is seen as it is, and so is what was found at it: two with one view are the same.
pub proof fn entry_views_tell_entries_apart(a: Target, b: Target, x: Found, y: Found)
    ensures
        a@ == b@ ==> a.addr@ == b.addr@ && match (a.label, b.label) {
            (Label::Key(p), Label::Key(q)) => p@ == q@,
            (Label::Domain(p), Label::Domain(q)) => p@ == q@,
            (Label::Addr(p), Label::Addr(q)) => p@ == q@,
            _ => false,
        },
        x@ == y@ ==> match (x, y) {
            (Found::Value(p), Found::Value(q)) => p@ == q@,
            (Found::Sealed(p), Found::Sealed(q)) => p@ == q@,
            (Found::Absent, Found::Absent) => true,
            (Found::Unreadable(p), Found::Unreadable(q)) => p@ == q@,
            _ => false,
        },
{
}

} // verus!
