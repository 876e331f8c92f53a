# kete

Encrypted keyed storage over a mirrored vault, written in Rust and verified with Verus.

An app opens a vault under an app id, a 32-byte seed and a 32-byte secret, and reads and writes
values by logical string key or by 32-byte address. Values are sealed with ChaCha20-Poly1305 under a
key of their own, derived with BLAKE3 from the address, the seed and the secret; keys never reach the
disk. A vault is kept in two ring files that mirror each other.

- `src/` is the library. It computes and decides; it does no I/O. Every function carries a contract
  that Verus proves, but for the trusted ones named below. `src/laws.rs` states what holds across functions: a read gives back what was
  written, reads go before queued writes, mutations keep their order.
- `tests/` runs the library, against a real `manifestus` engine where one is needed.
- `app/` is the program `keteinfo`, and the storage with its files, its librarian thread and its
  clock.

What the library takes on trust is what it calls in other crates: the cipher, the key derivation, the
random generator, the vault file name, and two functions of the standard library. Each such call
stands in a small function whose comment says what is believed of it.
