//! Addresses and keys: every 32-byte vault address and every per-address cipher key is derived
//! with BLAKE3's key derivation mode, under a context string that names the app and the purpose.

use crate::crypto::joined_bytes;
use crate::text::concat2;
use vstd::prelude::*;

verus! {

/// The 32 bytes that BLAKE3's key derivation mode gives for `material` under `context`.
pub uninterp spec fn derived_key(context: Seq<char>, material: Seq<u8>) -> Seq<u8>;

/// The context of entry addresses in the app `app_id`.
pub open spec fn entry_context_text(app_id: Seq<char>) -> Seq<char> {
    app_id + ".storage.entry.v0"@
}

/// The context of cipher keys in the app `app_id`.
pub open spec fn encryption_context_text(app_id: Seq<char>) -> Seq<char> {
    app_id + ".storage.encryption.v0"@
}

/// The address of the logical string key `key`.
pub open spec fn entry_addr(app_id: Seq<char>, key: Seq<char>) -> Seq<u8> {
    derived_key(entry_context_text(app_id), vstd::utf8::encode_utf8(key))
}

/// The address of the entry `domain` within the 32-byte `scope`.
pub open spec fn scoped_addr(app_id: Seq<char>, domain: Seq<char>, scope: Seq<u8>) -> Seq<u8> {
    derived_key(entry_context_text(app_id), vstd::utf8::encode_utf8(domain) + scope)
}

/// The cipher key for the value at `addr`, bound to the vault's seed and secret.
pub open spec fn addr_key(
    app_id: Seq<char>,
    addr: Seq<u8>,
    vault_seed: Seq<u8>,
    secret: Seq<u8>,
) -> Seq<u8> {
    derived_key(encryption_context_text(app_id), addr + vault_seed + secret)
}

/// Calls `blake3::derive_key`.
///
/// Believed of it: the 32 bytes it returns depend on the context string and the key material
/// alone.
#[verifier::external_body]
fn derive_key(context: &str, material: &[u8]) -> (key: [u8; 32])
    ensures
        key@ == derived_key(context@, material@),
{
    blake3::derive_key(context, material)
}

/// The context string under which `app_id` derives its entry addresses.
pub fn entry_context(app_id: &str) -> (context: String)
    ensures
        context@ == entry_context_text(app_id@),
        context@ == app_id@ + ".storage.entry.v0"@,
{
    concat2(app_id, ".storage.entry.v0")
}

/// The context string under which `app_id` derives its cipher keys.
pub fn encryption_context(app_id: &str) -> (context: String)
    ensures
        context@ == encryption_context_text(app_id@),
        context@ == app_id@ + ".storage.encryption.v0"@,
{
    concat2(app_id, ".storage.encryption.v0")
}

/// What is hashed for a domain-scoped address: the domain's bytes, then the scope.
pub fn scoped_input(domain: &str, scope: &[u8; 32]) -> (input: Vec<u8>)
    ensures
        input@ == vstd::utf8::encode_utf8(domain@) + scope@,
{
    joined_bytes(domain.as_bytes(), scope.as_slice())
}

/// What is hashed for a cipher key: the address, the vault's seed, the vault's secret.
pub fn addr_key_input(addr: &[u8; 32], vault_seed: &[u8; 32], secret: &[u8; 32]) -> (input: Vec<u8>)
    ensures
        input@ == addr@ + vault_seed@ + secret@,
{
    let head = joined_bytes(addr.as_slice(), vault_seed.as_slice());
    joined_bytes(head.as_slice(), secret.as_slice())
}

/// The vault address of a logical string key. The string itself never reaches the disk.
pub fn derive_entry_addr(app_id: &str, key: &str) -> (addr: [u8; 32])
    ensures
        addr@ == entry_addr(app_id@, key@),
        addr@ == derived_key(app_id@ + ".storage.entry.v0"@, vstd::utf8::encode_utf8(key@)),
{
    let context = entry_context(app_id);
    derive_key(context.as_str(), key.as_bytes())
}

/// A domain-scoped vault address: the context of string keys, over domain bytes and scope.
pub fn derive_scoped_addr(app_id: &str, domain: &str, scope: &[u8; 32]) -> (addr: [u8; 32])
    ensures
        addr@ == scoped_addr(app_id@, domain@, scope@),
        addr@ == derived_key(
            app_id@ + ".storage.entry.v0"@,
            vstd::utf8::encode_utf8(domain@) + scope@,
        ),
{
    let context = entry_context(app_id);
    let input = scoped_input(domain, scope);
    derive_key(context.as_str(), input.as_slice())
}

/// The cipher key of one address: the only place it is derived, for the store and for tools that
/// read copied vault files alike.
pub fn derive_addr_key(
    app_id: &str,
    addr: &[u8; 32],
    vault_seed: &[u8; 32],
    secret: &[u8; 32],
) -> (key: [u8; 32])
    ensures
        key@ == addr_key(app_id@, addr@, vault_seed@, secret@),
        key@ == derived_key(
            app_id@ + ".storage.encryption.v0"@,
            addr@ + vault_seed@ + secret@,
        ),
{
    let context = encryption_context(app_id);
    let input = addr_key_input(addr, vault_seed, secret);
    derive_key(context.as_str(), input.as_slice())
}

/// Addresses and cipher keys never share a context, whatever the two apps are called.
pub proof fn contexts_are_separate(app_a: Seq<char>, app_b: Seq<char>)
    ensures
        entry_context_text(app_a) != encryption_context_text(app_b),
{
    reveal_strlit(".storage.entry.v0");
    reveal_strlit(".storage.encryption.v0");
    let entry = entry_context_text(app_a);
    let encryption = encryption_context_text(app_b);
    assert(entry[entry.len() - 4] == 'y');
    assert(encryption[encryption.len() - 4] == 'n');
}

/// Two apps share a context only if they are the same app.
pub proof fn contexts_name_the_app(app_a: Seq<char>, app_b: Seq<char>)
    ensures
        entry_context_text(app_a) == entry_context_text(app_b) ==> app_a == app_b,
        encryption_context_text(app_a) == encryption_context_text(app_b) ==> app_a == app_b,
{
    let entry = ".storage.entry.v0"@;
    let encryption = ".storage.encryption.v0"@;
    if entry_context_text(app_a) == entry_context_text(app_b) {
        assert((app_a + entry).len() == (app_b + entry).len());
        assert(app_a == (app_a + entry).take(app_a.len() as int));
        assert(app_b == (app_b + entry).take(app_b.len() as int));
    }
    if encryption_context_text(app_a) == encryption_context_text(app_b) {
        assert((app_a + encryption).len() == (app_b + encryption).len());
        assert(app_a == (app_a + encryption).take(app_a.len() as int));
        assert(app_b == (app_b + encryption).take(app_b.len() as int));
    }
}

/// Every address, seed and secret enter a cipher key's derivation in full: two key inputs are equal
/// only if all three parts are.
pub proof fn key_inputs_are_distinct(
    addr_a: Seq<u8>,
    seed_a: Seq<u8>,
    secret_a: Seq<u8>,
    addr_b: Seq<u8>,
    seed_b: Seq<u8>,
    secret_b: Seq<u8>,
)
    requires
        addr_a.len() == 32,
        seed_a.len() == 32,
        secret_a.len() == 32,
        addr_b.len() == 32,
        seed_b.len() == 32,
        secret_b.len() == 32,
        addr_a + seed_a + secret_a == addr_b + seed_b + secret_b,
    ensures
        addr_a == addr_b,
        seed_a == seed_b,
        secret_a == secret_b,
{
    let a = addr_a + seed_a + secret_a;
    let b = addr_b + seed_b + secret_b;
    assert(addr_a == a.subrange(0, 32));
    assert(addr_b == b.subrange(0, 32));
    assert(seed_a == a.subrange(32, 64));
    assert(seed_b == b.subrange(32, 64));
    assert(secret_a == a.subrange(64, 96));
    assert(secret_b == b.subrange(64, 96));
}

/// Domain and scope enter a scoped address in full: two scoped inputs are equal only if both parts
/// are.
pub proof fn scoped_inputs_are_distinct(
    domain_a: Seq<char>,
    scope_a: Seq<u8>,
    domain_b: Seq<char>,
    scope_b: Seq<u8>,
)
    requires
        scope_a.len() == 32,
        scope_b.len() == 32,
        vstd::utf8::encode_utf8(domain_a) + scope_a == vstd::utf8::encode_utf8(domain_b) + scope_b,
    ensures
        domain_a == domain_b,
        scope_a == scope_b,
{
    let a = vstd::utf8::encode_utf8(domain_a);
    let b = vstd::utf8::encode_utf8(domain_b);
    assert((a + scope_a).len() == (b + scope_b).len());
    assert(a == (a + scope_a).take(a.len() as int));
    assert(b == (b + scope_b).take(b.len() as int));
    assert(scope_a == (a + scope_a).skip(a.len() as int));
    assert(scope_b == (b + scope_b).skip(b.len() as int));
    vstd::utf8::encode_utf8_decode_utf8(domain_a);
    vstd::utf8::encode_utf8_decode_utf8(domain_b);
}

/// A string key's address hashes the whole key, under the app's own context: of two different keys,
/// or of one key in two apps, no two share what is hashed.
pub proof fn entry_addresses_hash_the_whole_key(
    app_a: Seq<char>,
    key_a: Seq<char>,
    app_b: Seq<char>,
    key_b: Seq<char>,
)
    ensures
        entry_addr(app_a, key_a) == derived_key(
            app_a + ".storage.entry.v0"@,
            vstd::utf8::encode_utf8(key_a),
        ),
        entry_addr(app_b, key_b) == derived_key(
            app_b + ".storage.entry.v0"@,
            vstd::utf8::encode_utf8(key_b),
        ),
        app_a != app_b ==> app_a + ".storage.entry.v0"@ != app_b + ".storage.entry.v0"@,
        key_a != key_b ==> vstd::utf8::encode_utf8(key_a) != vstd::utf8::encode_utf8(key_b),
{
    contexts_name_the_app(app_a, app_b);
    vstd::utf8::encode_utf8_decode_utf8(key_a);
    vstd::utf8::encode_utf8_decode_utf8(key_b);
}

/// A scoped address hashes the whole domain and the whole scope: two that differ in either share
/// nothing that is hashed.
pub proof fn scoped_addresses_hash_domain_and_scope(
    app_id: Seq<char>,
    domain_a: Seq<char>,
    scope_a: Seq<u8>,
    domain_b: Seq<char>,
    scope_b: Seq<u8>,
)
    requires
        scope_a.len() == 32,
        scope_b.len() == 32,
    ensures
        scoped_addr(app_id, domain_a, scope_a) == derived_key(
            app_id + ".storage.entry.v0"@,
            vstd::utf8::encode_utf8(domain_a) + scope_a,
        ),
        scoped_addr(app_id, domain_b, scope_b) == derived_key(
            app_id + ".storage.entry.v0"@,
            vstd::utf8::encode_utf8(domain_b) + scope_b,
        ),
        domain_a != domain_b || scope_a != scope_b ==> vstd::utf8::encode_utf8(domain_a) + scope_a
            != vstd::utf8::encode_utf8(domain_b) + scope_b,
{
    if vstd::utf8::encode_utf8(domain_a) + scope_a == vstd::utf8::encode_utf8(domain_b) + scope_b {
        scoped_inputs_are_distinct(domain_a, scope_a, domain_b, scope_b);
    }
}

/// A cipher key hashes the whole address, the whole seed and the whole secret: two keys of one app
/// that differ in any of the three share nothing that is hashed.
pub proof fn cipher_keys_hash_address_seed_and_secret(
    app_id: Seq<char>,
    addr_a: Seq<u8>,
    seed_a: Seq<u8>,
    secret_a: Seq<u8>,
    addr_b: Seq<u8>,
    seed_b: Seq<u8>,
    secret_b: Seq<u8>,
)
    requires
        addr_a.len() == 32,
        seed_a.len() == 32,
        secret_a.len() == 32,
        addr_b.len() == 32,
        seed_b.len() == 32,
        secret_b.len() == 32,
    ensures
        addr_key(app_id, addr_a, seed_a, secret_a) == derived_key(
            app_id + ".storage.encryption.v0"@,
            addr_a + seed_a + secret_a,
        ),
        addr_key(app_id, addr_b, seed_b, secret_b) == derived_key(
            app_id + ".storage.encryption.v0"@,
            addr_b + seed_b + secret_b,
        ),
        addr_a != addr_b || seed_a != seed_b || secret_a != secret_b ==> addr_a + seed_a + secret_a
            != addr_b + seed_b + secret_b,
{
    if addr_a + seed_a + secret_a == addr_b + seed_b + secret_b {
        key_inputs_are_distinct(addr_a, seed_a, secret_a, addr_b, seed_b, secret_b);
    }
}

} // verus!
