//! Sealing and opening values with ChaCha20-Poly1305.
//!
//! A sealed blob is laid out as `nonce (12 bytes) || ciphertext || tag (16 bytes)`. The cipher is
//! the `chacha20poly1305` crate's; everything around it (the framing, the length test, the error
//! texts) is proved here.

use crate::text;
use chacha20poly1305::aead::Aead;
use chacha20poly1305::{ChaCha20Poly1305, KeyInit, Nonce};
use rand::RngCore;
use vstd::prelude::*;
use vstd::string::StringExecFns;

verus! {

/// Bytes of a nonce.
pub const NONCE_LEN: usize = 12;

/// Bytes of an authentication tag.
pub const TAG_LEN: usize = 16;

/// Lengths strictly between these two lie in the counter gap.
const COUNTER_GAP_START: u64 = 0x3f_ffff_ff80;

const COUNTER_GAP_END: u64 = 0x3f_ffff_ffc0;

/// What the cipher makes of `plaintext` under `key` and `nonce`: the ciphertext with its tag, or
/// nothing where the plaintext is too long for it.
pub uninterp spec fn aead_sealed(key: Seq<u8>, nonce: Seq<u8>, plaintext: Seq<u8>) -> Option<
    Seq<u8>,
>;

/// What the cipher finds in `sealed` under `key` and `nonce`: the plaintext, or nothing where the
/// tag does not fit.
pub uninterp spec fn aead_opened(key: Seq<u8>, nonce: Seq<u8>, sealed: Seq<u8>) -> Option<Seq<u8>>;

/// The longest run of whole 64-byte blocks, in blocks, that the cipher's length test lets pass.
pub open spec fn cipher_block_limit() -> nat {
    0xffff_ffff
}

/// A length the cipher refuses with an error.
pub open spec fn too_long_for_cipher(len: nat) -> bool {
    len / 64 >= cipher_block_limit()
}

/// The band just below that limit: the length test passes, but the 32-bit block counter has one
/// block too few, and the cipher stops the program instead of returning an error.
pub open spec fn in_counter_gap(len: nat) -> bool {
    &&& len > 64 * (cipher_block_limit() - 1)
    &&& !too_long_for_cipher(len)
}

/// The text of the cipher's one error.
pub open spec fn cipher_error_text() -> Seq<char> {
    "aead::Error"@
}

/// The text for a blob of `len` bytes that cannot hold a nonce and a tag.
pub open spec fn too_short_text(len: nat) -> Seq<char> {
    "ciphertext too short: "@ + text::decimal_text(len)
        + " bytes (need ≥ 28 for nonce + auth tag)"@
}

/// A result of bytes or a message, seen as sequences.
pub open spec fn seen(r: Result<Vec<u8>, String>) -> Result<Seq<u8>, Seq<char>> {
    match r {
        Ok(bytes) => Ok(bytes@),
        Err(message) => Err(message@),
    }
}

/// A sealed blob: the nonce, then what the cipher made; a cipher error stays what it is.
pub open spec fn framed(nonce: Seq<u8>, sealed: Result<Seq<u8>, Seq<char>>) -> Result<
    Seq<u8>,
    Seq<char>,
> {
    match sealed {
        Ok(bytes) => Ok(nonce + bytes),
        Err(message) => Err(message),
    }
}

/// `plaintext` sealed under `key` with `nonce`.
pub open spec fn encrypted(plaintext: Seq<u8>, key: Seq<u8>, nonce: Seq<u8>) -> Result<
    Seq<u8>,
    Seq<char>,
> {
    match aead_sealed(key, nonce, plaintext) {
        Some(sealed) => Ok(nonce + sealed),
        None => Err(cipher_error_text()),
    }
}

/// What `blob` holds under `key`: its plaintext, or why there is none.
pub open spec fn decrypted(blob: Seq<u8>, key: Seq<u8>) -> Result<Seq<u8>, Seq<char>> {
    if blob.len() < NONCE_LEN + TAG_LEN {
        Err(too_short_text(blob.len()))
    } else if in_counter_gap((blob.len() - NONCE_LEN - TAG_LEN) as nat) {
        Err(cipher_error_text())
    } else {
        match aead_opened(key, blob.take(NONCE_LEN as int), blob.skip(NONCE_LEN as int)) {
            Some(plaintext) => Ok(plaintext),
            None => Err(cipher_error_text()),
        }
    }
}

/// Calls `ChaCha20Poly1305::encrypt` of the `chacha20poly1305` crate, without associated data.
///
/// Believed of it: it fails, with its one error, exactly where the plaintext is too long; its
/// result depends on key, nonce and plaintext alone; it appends a tag of 16 bytes; and opening
/// what it made, under the same key and nonce, gives the plaintext back. In the counter gap it
/// panics, so those lengths are left out.
#[verifier::external_body]
fn aead_seal(key: &[u8; 32], nonce: &[u8; 12], plaintext: &[u8]) -> (r: Result<Vec<u8>, String>)
    requires
        !in_counter_gap(plaintext@.len()),
    ensures
        r is Err <==> too_long_for_cipher(plaintext@.len()),
        match r {
            Ok(sealed) => aead_sealed(key@, nonce@, plaintext@) == Some(sealed@),
            Err(message) => aead_sealed(key@, nonce@, plaintext@) is None && message@
                == cipher_error_text(),
        },
        r matches Ok(sealed) ==> sealed@.len() == plaintext@.len() + TAG_LEN,
        r matches Ok(sealed) ==> aead_opened(key@, nonce@, sealed@) == Some(plaintext@),
{
    let cipher = ChaCha20Poly1305::new(key.into());
    cipher.encrypt(&Nonce::from(*nonce), plaintext).map_err(|e| e.to_string())
}

/// Calls `ChaCha20Poly1305::decrypt` of the `chacha20poly1305` crate, without associated data.
///
/// Believed of it: its result depends on key, nonce and sealed bytes alone; it has one error; a
/// plaintext it returns is 16 bytes shorter than the sealed bytes, and sealing that plaintext
/// again under the same key and nonce gives the same sealed bytes. In the counter gap it can
/// panic, so those lengths are left out.
#[verifier::external_body]
fn aead_open(key: &[u8; 32], nonce: &[u8; 12], sealed: &[u8]) -> (r: Result<Vec<u8>, String>)
    requires
        sealed@.len() >= TAG_LEN,
        !in_counter_gap((sealed@.len() - TAG_LEN) as nat),
    ensures
        match r {
            Ok(plaintext) => aead_opened(key@, nonce@, sealed@) == Some(plaintext@),
            Err(message) => aead_opened(key@, nonce@, sealed@) is None && message@
                == cipher_error_text(),
        },
        r matches Ok(plaintext) ==> sealed@.len() == plaintext@.len() + TAG_LEN,
        r matches Ok(plaintext) ==> aead_sealed(key@, nonce@, plaintext@) == Some(sealed@),
{
    let cipher = ChaCha20Poly1305::new(key.into());
    cipher.decrypt(&Nonce::from(*nonce), sealed).map_err(|e| e.to_string())
}

/// Calls `RngCore::fill_bytes` of the `rand` crate's `thread_rng` for twelve fresh random bytes.
///
/// Nothing is believed of the bytes: they are chance.
#[verifier::external_body]
fn fresh_nonce() -> (nonce: [u8; 12]) {
    let mut nonce = [0u8; 12];
    rand::thread_rng().fill_bytes(&mut nonce);
    nonce
}

/// Whether a plaintext of `len` bytes falls in the counter gap: no value that long can be sealed.
pub fn falls_in_counter_gap(len: usize) -> (gap: bool)
    ensures
        gap == in_counter_gap(len as nat),
        gap == (64 * 0xffff_fffe < len < 64 * 0xffff_ffff),
{
    let len: u64 = len as u64;
    COUNTER_GAP_START < len && len < COUNTER_GAP_END
}

/// `a` followed by `b`, as new bytes.
pub(crate) fn joined_bytes(a: &[u8], b: &[u8]) -> (out: Vec<u8>)
    ensures
        out@ == a@ + b@,
{
    let mut out: Vec<u8> = Vec::new();
    out.extend_from_slice(a);
    out.extend_from_slice(b);
    assert(out@ == a@ + b@);
    out
}

/// Puts the nonce before what the cipher made; an error passes through.
pub fn frame_sealed(nonce: &[u8; 12], sealed: Result<Vec<u8>, String>) -> (blob: Result<
    Vec<u8>,
    String,
>)
    ensures
        seen(blob) == framed(nonce@, seen(sealed)),
        match (sealed, blob) {
            (Ok(bytes), Ok(out)) => out@ == nonce@ + bytes@,
            (Err(message), Err(same)) => same@ == message@,
            _ => false,
        },
{
    match sealed {
        Ok(bytes) => Ok(joined_bytes(nonce.as_slice(), bytes.as_slice())),
        Err(message) => Err(message),
    }
}

/// Seals `plaintext` under `key` with a nonce of the caller's choosing. A nonce must never be used
/// twice with one key: [`encrypt_bytes`] draws a fresh one.
pub fn encrypt_with_nonce(plaintext: &[u8], key: &[u8; 32], nonce: &[u8; 12]) -> (blob: Result<
    Vec<u8>,
    String,
>)
    requires
        !in_counter_gap(plaintext@.len()),
    ensures
        seen(blob) == encrypted(plaintext@, key@, nonce@),
        match blob {
            Ok(bytes) => {
                &&& plaintext@.len() / 64 < 0xffff_ffff
                &&& bytes@.take(12) == nonce@
                &&& aead_sealed(key@, nonce@, plaintext@) == Some(bytes@.skip(12))
            },
            Err(message) => plaintext@.len() / 64 >= 0xffff_ffff && message@ == "aead::Error"@,
        },
        blob is Err <==> too_long_for_cipher(plaintext@.len()),
        blob matches Ok(bytes) ==> bytes@.len() == plaintext@.len() + NONCE_LEN + TAG_LEN,
        blob matches Ok(bytes) ==> decrypted(bytes@, key@) == Ok::<Seq<u8>, Seq<char>>(plaintext@),
{
    let sealed = aead_seal(key, nonce, plaintext);
    let blob = frame_sealed(nonce, sealed);
    proof {
        if blob is Ok {
            let bytes = blob->Ok_0@;
            let made = aead_sealed(key@, nonce@, plaintext@).unwrap();
            assert(bytes == nonce@ + made);
            assert(bytes.take(NONCE_LEN as int) == nonce@);
            assert(bytes.skip(NONCE_LEN as int) == made);
        }
    }
    blob
}

/// Seals `plaintext` under `key` with a fresh random nonce: one place for the whole library, so
/// that a change of cipher or framing lands here alone.
///
/// Whatever nonce chance gives, the blob opens to the plaintext again.
pub fn encrypt_bytes(plaintext: &[u8], key: &[u8; 32]) -> (blob: Result<Vec<u8>, String>)
    requires
        !in_counter_gap(plaintext@.len()),
    ensures
        blob is Err <==> too_long_for_cipher(plaintext@.len()),
        match blob {
            Ok(bytes) => {
                &&& plaintext@.len() / 64 < 0xffff_ffff
                &&& bytes@.len() == plaintext@.len() + 28
                &&& aead_sealed(key@, bytes@.take(12), plaintext@) == Some(bytes@.skip(12))
                &&& aead_opened(key@, bytes@.take(12), bytes@.skip(12)) == Some(plaintext@)
            },
            Err(message) => plaintext@.len() / 64 >= 0xffff_ffff && message@ == "aead::Error"@,
        },
        exists|nonce: Seq<u8>|
            #![trigger encrypted(plaintext@, key@, nonce)]
            nonce.len() == NONCE_LEN && seen(blob) == encrypted(plaintext@, key@, nonce),
        blob matches Ok(bytes) ==> bytes@.len() == plaintext@.len() + NONCE_LEN + TAG_LEN,
        blob matches Ok(bytes) ==> decrypted(bytes@, key@) == Ok::<Seq<u8>, Seq<char>>(plaintext@),
{
    let nonce = fresh_nonce();
    let blob = encrypt_with_nonce(plaintext, key, &nonce);
    assert(seen(blob) == encrypted(plaintext@, key@, nonce@));
    blob
}

/// The nonce and the sealed bytes of `blob`, or the text for one too short to hold a nonce and a
/// tag.
pub fn split_blob(blob: &[u8]) -> (parts: Result<(&[u8], &[u8]), String>)
    ensures
        match parts {
            Ok((nonce, sealed)) => {
                &&& blob@.len() >= NONCE_LEN + TAG_LEN
                &&& nonce@ == blob@.take(NONCE_LEN as int)
                &&& sealed@ == blob@.skip(NONCE_LEN as int)
            },
            Err(message) => blob@.len() < NONCE_LEN + TAG_LEN && message@ == too_short_text(
                blob@.len(),
            ),
        },
{
    if blob.len() < NONCE_LEN + TAG_LEN {
        let mut message = "ciphertext too short: ".to_owned();
        message.append(text::decimal(blob.len()).as_str());
        message.append(" bytes (need ≥ 28 for nonce + auth tag)");
        return Err(message);
    }
    let (nonce, sealed) = blob.split_at(NONCE_LEN);
    assert(nonce@ == blob@.take(NONCE_LEN as int));
    assert(sealed@ == blob@.skip(NONCE_LEN as int));
    Ok((nonce, sealed))
}

/// A nonce's bytes as an array.
fn nonce_array(bytes: &[u8]) -> (nonce: [u8; 12])
    requires
        bytes@.len() == NONCE_LEN,
    ensures
        nonce@ == bytes@,
{
    let mut nonce = [0u8; 12];
    for i in 0..12usize
        invariant
            bytes@.len() == NONCE_LEN,
            forall|j: int| 0 <= j < i ==> nonce@[j] == bytes@[j],
    {
        nonce[i] = bytes[i];
    }
    assert(nonce@ == bytes@);
    nonce
}

/// Opens a blob that [`encrypt_bytes`] made. A wrong key, tampering or truncation comes back as
/// the cipher's error text.
pub fn decrypt_bytes(blob: &[u8], key: &[u8; 32]) -> (plaintext: Result<Vec<u8>, String>)
    ensures
        seen(plaintext) == decrypted(blob@, key@),
        match plaintext {
            Ok(bytes) => blob@.len() >= 28 && aead_opened(key@, blob@.take(12), blob@.skip(12))
                == Some(bytes@),
            Err(message) => if blob@.len() < 28 {
                message@ == "ciphertext too short: "@ + text::decimal_text(blob@.len())
                    + " bytes (need ≥ 28 for nonce + auth tag)"@
            } else {
                &&& message@ == "aead::Error"@
                &&& aead_opened(key@, blob@.take(12), blob@.skip(12)) is None || 64 * 0xffff_fffe
                    < blob@.len() - 28 < 64 * 0xffff_ffff
            },
        },
        plaintext matches Ok(bytes) ==> blob@.len() == bytes@.len() + NONCE_LEN + TAG_LEN,
        plaintext matches Ok(bytes) ==> encrypted(bytes@, key@, blob@.take(NONCE_LEN as int))
            == Ok::<Seq<u8>, Seq<char>>(blob@),
{
    let (nonce, sealed) = match split_blob(blob) {
        Ok(parts) => parts,
        Err(message) => return Err(message),
    };
    if falls_in_counter_gap(sealed.len() - TAG_LEN) {
        return Err("aead::Error".to_owned());
    }
    let plaintext = aead_open(key, &nonce_array(nonce), sealed);
    assert(nonce@ + sealed@ == blob@);
    plaintext
}

/// A sealed blob is the nonce, and behind it exactly what the cipher made of the whole plaintext.
pub proof fn blobs_are_nonce_then_sealed(plaintext: Seq<u8>, key: Seq<u8>, nonce: Seq<u8>)
    ensures
        match encrypted(plaintext, key, nonce) {
            Ok(blob) => {
                &&& blob.take(nonce.len() as int) == nonce
                &&& aead_sealed(key, nonce, plaintext) == Some(blob.skip(nonce.len() as int))
            },
            Err(message) => aead_sealed(key, nonce, plaintext) is None && message == "aead::Error"@,
        },
{
    if let Some(sealed) = aead_sealed(key, nonce, plaintext) {
        let blob = nonce + sealed;
        assert(blob.take(nonce.len() as int) == nonce);
        assert(blob.skip(nonce.len() as int) == sealed);
    }
}

/// A blob opens to all that the cipher finds behind its first twelve bytes, and to nothing else: one
/// of fewer than 28 bytes says how short it is, and one that the cipher refuses is the cipher's error.
pub proof fn blobs_open_to_what_the_cipher_finds(blob: Seq<u8>, key: Seq<u8>, plaintext: Seq<u8>)
    ensures
        blob.len() < 28 ==> decrypted(blob, key) == Err::<Seq<u8>, Seq<char>>(
            "ciphertext too short: "@ + text::decimal_text(blob.len())
                + " bytes (need ≥ 28 for nonce + auth tag)"@,
        ),
        decrypted(blob, key) == Ok::<Seq<u8>, Seq<char>>(plaintext) ==> blob.len() >= 28
            && aead_opened(key, blob.take(12), blob.skip(12)) == Some(plaintext),
        blob.len() >= 28 && !(64 * 0xffff_fffe < blob.len() - 28 < 64 * 0xffff_ffff) ==> (match aead_opened(
            key,
            blob.take(12),
            blob.skip(12),
        ) {
            Some(found) => decrypted(blob, key) == Ok::<Seq<u8>, Seq<char>>(found),
            None => decrypted(blob, key) == Err::<Seq<u8>, Seq<char>>("aead::Error"@),
        }),
{
}

/// What was sealed opens again, whole: where the cipher opens what it made of a plaintext, the blob
/// that carries it decrypts to that plaintext.
pub proof fn sealed_values_open(plaintext: Seq<u8>, key: Seq<u8>, nonce: Seq<u8>)
    requires
        nonce.len() == 12,
        encrypted(plaintext, key, nonce) is Ok,
        encrypted(plaintext, key, nonce)->Ok_0.len() == plaintext.len() + 28,
        aead_sealed(key, nonce, plaintext) matches Some(sealed) && aead_opened(key, nonce, sealed)
            == Some(plaintext),
        !(64 * 0xffff_fffe < plaintext.len() < 64 * 0xffff_ffff),
    ensures
        decrypted(encrypted(plaintext, key, nonce)->Ok_0, key) == Ok::<Seq<u8>, Seq<char>>(
            plaintext,
        ),
{
    blobs_are_nonce_then_sealed(plaintext, key, nonce);
}

} // verus!
