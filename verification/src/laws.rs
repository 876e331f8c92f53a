//! What holds of the library as a whole: the order in which the librarian serves what it is asked,
//! and what a reader gets of what was written.

use crate::crypto;
use crate::error::StorageErrorView;
use crate::librarian;
use crate::librarian::{Queued, VaultOp, VaultOpView};
use crate::storage::StorageView;
use vstd::prelude::*;

verus! {

/// A librarian's history: what it has performed, what is still queued, and which reads it answered
/// in each round.
#[verifier::ext_equal]
pub struct History {
    pub performed: Seq<Queued>,
    pub pending: Seq<Queued>,
    pub answered: Seq<Seq<Queued>>,
}

/// `q` as the sequence of what it holds.
pub open spec fn at_most_one(q: Option<Queued>) -> Seq<Queued> {
    match q {
        Some(queued) => seq![queued],
        None => Seq::empty(),
    }
}

/// The history after one round per batch, when each batch is what arrived before its round. A round
/// is what `Librarian::next_round` plans for the queue.
pub open spec fn served(batches: Seq<Seq<Queued>>) -> History
    decreases batches.len(),
{
    if batches.len() == 0 {
        History { performed: Seq::empty(), pending: Seq::empty(), answered: Seq::empty() }
    } else {
        let before = served(batches.drop_last());
        let queue = before.pending + batches.last();
        let mutations = librarian::mutations_of(queue);
        History {
            performed: before.performed + at_most_one(librarian::first_of(mutations)),
            pending: librarian::rest_of(mutations),
            answered: before.answered.push(librarian::reads_of(queue)),
        }
    }
}

/// Everything in `batches`, in order.
pub open spec fn in_order(batches: Seq<Seq<Queued>>) -> Seq<Queued>
    decreases batches.len(),
{
    if batches.len() == 0 {
        Seq::empty()
    } else {
        in_order(batches.drop_last()) + batches.last()
    }
}

/// The mutations of two queues, one after the other.
proof fn mutations_of_both(a: Seq<Queued>, b: Seq<Queued>)
    ensures
        librarian::mutations_of(a + b) == librarian::mutations_of(a) + librarian::mutations_of(b),
        librarian::reads_of(a + b) == librarian::reads_of(a) + librarian::reads_of(b),
    decreases b.len(),
{
    if b.len() == 0 {
        assert(a + b == a);
        assert(librarian::mutations_of(a) + librarian::mutations_of(b) == librarian::mutations_of(
            a,
        ));
        assert(librarian::reads_of(a) + librarian::reads_of(b) == librarian::reads_of(a));
    } else {
        mutations_of_both(a, b.drop_last());
        assert((a + b).drop_last() == a + b.drop_last());
        assert(librarian::mutations_of(a + b) == librarian::mutations_of(a)
            + librarian::mutations_of(b));
        assert(librarian::reads_of(a + b) == librarian::reads_of(a) + librarian::reads_of(b));
    }
}

/// A queue of mutations only holds no read, and is its own mutations.
proof fn only_mutations(queue: Seq<Queued>)
    requires
        forall|i: int| 0 <= i < queue.len() ==> (#[trigger] queue[i]).op.mutates(),
    ensures
        librarian::mutations_of(queue) == queue,
        librarian::reads_of(queue) == Seq::<Queued>::empty(),
    decreases queue.len(),
{
    if queue.len() > 0 {
        let rest = queue.drop_last();
        assert forall|i: int| 0 <= i < rest.len() implies (#[trigger] rest[i]).op.mutates() by {
            assert(queue[i] == rest[i]);
        }
        only_mutations(rest);
        assert(queue[queue.len() - 1].op.mutates());
        assert(rest.push(queue.last()) == queue);
    }
}

/// The mutations of a queue are mutations.
proof fn mutations_mutate(queue: Seq<Queued>)
    ensures
        forall|i: int|
            0 <= i < librarian::mutations_of(queue).len() ==> (
            #[trigger] librarian::mutations_of(queue)[i]).op.mutates(),
    decreases queue.len(),
{
    if queue.len() > 0 {
        mutations_mutate(queue.drop_last());
    }
}

/// Between rounds only mutations are queued: no read is ever left waiting for another round.
pub proof fn no_read_is_left_queued(batches: Seq<Seq<Queued>>)
    ensures
        forall|i: int|
            0 <= i < served(batches).pending.len() ==> (#[trigger] served(
                batches,
            ).pending[i]).op.mutates(),
{
    if batches.len() > 0 {
        let queue = served(batches.drop_last()).pending + batches.last();
        mutations_mutate(queue);
        let mutations = librarian::mutations_of(queue);
        assert forall|i: int| 0 <= i < served(batches).pending.len() implies (#[trigger] served(
            batches,
        ).pending[i]).op.mutates() by {
            assert(mutations[i + 1].op.mutates());
        }
    }
}

/// Mutations are performed in the order they arrived, each exactly once: what was performed, and
/// after it what is still queued, is exactly the mutations that arrived.
pub proof fn mutations_keep_their_order(batches: Seq<Seq<Queued>>)
    ensures
        served(batches).performed + served(batches).pending == librarian::mutations_of(
            in_order(batches),
        ),
    decreases batches.len(),
{
    if batches.len() > 0 {
        let earlier = batches.drop_last();
        let before = served(earlier);
        mutations_keep_their_order(earlier);
        no_read_is_left_queued(earlier);
        only_mutations(before.pending);
        mutations_of_both(before.pending, batches.last());
        mutations_of_both(in_order(earlier), batches.last());
        let mutations = librarian::mutations_of(before.pending + batches.last());
        assert(at_most_one(librarian::first_of(mutations)) + librarian::rest_of(mutations)
            == mutations);
        assert(served(batches).performed + served(batches).pending == before.performed
            + mutations);
        assert(before.performed + (before.pending + librarian::mutations_of(batches.last()))
            == before.performed + before.pending + librarian::mutations_of(batches.last()));
    }
}

/// Reads go first: every read is answered in the very round it arrived for, in order of arrival,
/// however many mutations are queued before it.
pub proof fn reads_go_first(batches: Seq<Seq<Queued>>, round: int)
    requires
        0 <= round < batches.len(),
    ensures
        served(batches).answered.len() == batches.len(),
        served(batches).answered[round] == librarian::reads_of(batches[round]),
    decreases batches.len(),
{
    let earlier = batches.drop_last();
    let before = served(earlier);
    answers_count_rounds(earlier);
    if round < earlier.len() {
        reads_go_first(earlier, round);
    } else {
        no_read_is_left_queued(earlier);
        only_mutations(before.pending);
        mutations_of_both(before.pending, batches.last());
        assert(Seq::<Queued>::empty() + librarian::reads_of(batches.last()) == librarian::reads_of(
            batches.last(),
        ));
    }
}

/// One round per batch.
proof fn answers_count_rounds(batches: Seq<Seq<Queued>>)
    ensures
        served(batches).answered.len() == batches.len(),
    decreases batches.len(),
{
    if batches.len() > 0 {
        answers_count_rounds(batches.drop_last());
    }
}

/// No mutation waits for ever: every round with anything queued performs one, so a queue of `n`
/// mutations is worked off in `n` rounds in which nothing arrives.
pub proof fn mutations_get_their_turn(batches: Seq<Seq<Queued>>, quiet: nat)
    ensures
        served(batches + silence(quiet)).pending.len() == (if served(batches).pending.len() <= quiet {
            0
        } else {
            served(batches).pending.len() - quiet
        }),
    decreases quiet,
{
    if quiet == 0 {
        assert(batches + silence(quiet) == batches);
    } else {
        let shorter = silence((quiet - 1) as nat);
        mutations_get_their_turn(batches, (quiet - 1) as nat);
        let all = batches + silence(quiet);
        assert(all.drop_last() == batches + shorter);
        assert(all.last() == Seq::<Queued>::empty());
        let before = served(batches + shorter);
        no_read_is_left_queued(batches + shorter);
        only_mutations(before.pending);
        assert(before.pending + Seq::<Queued>::empty() == before.pending);
    }
}

/// `quiet` rounds in which nothing arrives.
pub open spec fn silence(quiet: nat) -> Seq<Seq<Queued>> {
    Seq::new(quiet, |i: int| Seq::<Queued>::empty())
}

/// Reads are answered in the order they arrived, each exactly once, and none is left over.
pub proof fn reads_keep_their_order(batches: Seq<Seq<Queued>>)
    ensures
        in_order(served(batches).answered) == librarian::reads_of(in_order(batches)),
    decreases batches.len(),
{
    if batches.len() > 0 {
        let earlier = batches.drop_last();
        let before = served(earlier);
        reads_keep_their_order(earlier);
        no_read_is_left_queued(earlier);
        only_mutations(before.pending);
        mutations_of_both(before.pending, batches.last());
        mutations_of_both(in_order(earlier), batches.last());
        let reads = librarian::reads_of(before.pending + batches.last());
        assert(reads == librarian::reads_of(batches.last()));
        assert(served(batches).answered.drop_last() == before.answered);
    }
}

/// A queue is its reads and its mutations.
proof fn reads_and_mutations_are_all(queue: Seq<Queued>)
    ensures
        (librarian::reads_of(queue) + librarian::mutations_of(queue)).to_multiset()
            == queue.to_multiset(),
    decreases queue.len(),
{
    let reads = librarian::reads_of(queue);
    let mutations = librarian::mutations_of(queue);
    vstd::seq_lib::lemma_multiset_commutative(reads, mutations);
    if queue.len() > 0 {
        let rest = queue.drop_last();
        let last = queue.last();
        let earlier_reads = librarian::reads_of(rest);
        let earlier_mutations = librarian::mutations_of(rest);
        reads_and_mutations_are_all(rest);
        vstd::seq_lib::lemma_multiset_commutative(earlier_reads, earlier_mutations);
        earlier_reads.to_multiset_ensures();
        earlier_mutations.to_multiset_ensures();
        rest.to_multiset_ensures();
        assert(queue == rest.push(last));
        assert(queue.to_multiset() =~= rest.to_multiset().insert(last));
        assert((reads + mutations).to_multiset() =~= rest.to_multiset().insert(last));
    } else {
        assert(reads + mutations == queue);
    }
}

/// Every request is served exactly once: what was answered, what was performed and what is still
/// queued are together what arrived, no request lost and none served twice.
pub proof fn every_request_is_served_once(batches: Seq<Seq<Queued>>)
    ensures
        (in_order(served(batches).answered) + (served(batches).performed + served(
            batches,
        ).pending)).to_multiset() == in_order(batches).to_multiset(),
{
    reads_keep_their_order(batches);
    mutations_keep_their_order(batches);
    reads_and_mutations_are_all(in_order(batches));
}

/// Silence adds nothing to what arrived.
proof fn silence_brings_nothing(batches: Seq<Seq<Queued>>, quiet: nat)
    ensures
        in_order(batches + silence(quiet)) == in_order(batches),
    decreases quiet,
{
    if quiet == 0 {
        assert(batches + silence(quiet) == batches);
    } else {
        silence_brings_nothing(batches, (quiet - 1) as nat);
        let all = batches + silence(quiet);
        assert(all.drop_last() == batches + silence((quiet - 1) as nat));
        assert(all.last() == Seq::<Queued>::empty());
    }
}

/// A closed mailbox is served to its end: once nothing more arrives, as many rounds as mutations are
/// queued leave nothing queued. By then every mutation that arrived has been performed, in order of
/// arrival, every read has been answered, in order of arrival, and each request was served exactly
/// once. What the engine replies enters nowhere: a request that fails stops no later one.
pub proof fn a_closed_mailbox_is_served_to_its_end(batches: Seq<Seq<Queued>>)
    ensures
        ({
            let end = served(batches + silence(served(batches).pending.len()));
            &&& end.pending == Seq::<Queued>::empty()
            &&& end.performed == librarian::mutations_of(in_order(batches))
            &&& in_order(end.answered) == librarian::reads_of(in_order(batches))
            &&& (in_order(end.answered) + end.performed).to_multiset() == in_order(
                batches,
            ).to_multiset()
        }),
{
    let quiet = served(batches).pending.len();
    let all = batches + silence(quiet);
    let end = served(all);
    mutations_get_their_turn(batches, quiet);
    silence_brings_nothing(batches, quiet);
    mutations_keep_their_order(all);
    reads_keep_their_order(all);
    every_request_is_served_once(all);
    assert(end.performed + end.pending == end.performed);
}

/// What an engine that keeps what it is given holds after one more request.
pub open spec fn after_op(held: Map<Seq<u8>, Seq<u8>>, op: VaultOpView) -> Map<Seq<u8>, Seq<u8>> {
    match op {
        VaultOpView::Put { addr, stored } => held.insert(addr, stored),
        VaultOpView::Delete { addr } => held.remove(addr),
        _ => held,
    }
}

/// What such an engine holds after the requests `ops`.
pub open spec fn after_ops(held: Map<Seq<u8>, Seq<u8>>, ops: Seq<Queued>) -> Map<Seq<u8>, Seq<u8>>
    decreases ops.len(),
{
    if ops.len() == 0 {
        held
    } else {
        after_op(after_ops(held, ops.drop_last()), ops.last().op@)
    }
}

/// Reads leave the engine as it is: whatever is answered as a read changes nothing that is held, so
/// what a round does to the vault is what its one mutation does.
pub proof fn reads_change_nothing(held: Map<Seq<u8>, Seq<u8>>, queue: Seq<Queued>)
    ensures
        after_ops(held, librarian::reads_of(queue)) == held,
        forall|i: int|
            0 <= i < librarian::reads_of(queue).len() ==> (#[trigger] librarian::reads_of(
                queue,
            )[i]).op is Get || librarian::reads_of(queue)[i].op is Degraded,
    decreases queue.len(),
{
    if queue.len() > 0 {
        let rest = queue.drop_last();
        reads_change_nothing(held, rest);
        let earlier = librarian::reads_of(rest);
        assert(earlier.push(queue.last()).drop_last() == earlier);
    }
}

/// A put is there afterwards and a delete is not: performing a put at an address leaves exactly its
/// bytes there, a delete nothing, and neither touches another address.
pub proof fn mutations_do_what_they_ask(held: Map<Seq<u8>, Seq<u8>>, op: VaultOp, other: Seq<u8>)
    ensures
        op matches VaultOp::Put { addr, stored } ==> {
            &&& found_at(after_op(held, op@), addr@) == Some(stored@)
            &&& other != addr@ ==> found_at(after_op(held, op@), other) == found_at(held, other)
        },
        op matches VaultOp::Delete { addr } ==> {
            &&& found_at(after_op(held, op@), addr@) is None
            &&& other != addr@ ==> found_at(after_op(held, op@), other) == found_at(held, other)
        },
        op is Get || op is Degraded ==> after_op(held, op@) == held,
{
}

/// What such an engine finds at `addr`.
pub open spec fn found_at(held: Map<Seq<u8>, Seq<u8>>, addr: Seq<u8>) -> Option<Seq<u8>> {
    if held.dom().contains(addr) {
        Some(held[addr])
    } else {
        None
    }
}

/// Whether a request changes what is at `addr`.
pub open spec fn changes(op: VaultOpView, addr: Seq<u8>) -> bool {
    match op {
        VaultOpView::Put { addr: at, stored: _ } => at == addr,
        VaultOpView::Delete { addr: at } => at == addr,
        _ => false,
    }
}

/// Requests that do not change an address leave it alone.
proof fn untouched(held: Map<Seq<u8>, Seq<u8>>, ops: Seq<Queued>, from: int, addr: Seq<u8>)
    requires
        0 <= from <= ops.len(),
        forall|i: int| from <= i < ops.len() ==> !changes((#[trigger] ops[i]).op@, addr),
    ensures
        found_at(after_ops(held, ops), addr) == found_at(after_ops(held, ops.take(from)), addr),
    decreases ops.len(),
{
    if from == ops.len() {
        assert(ops.take(from) == ops);
    } else {
        let rest = ops.drop_last();
        assert forall|i: int| from <= i < rest.len() implies !changes(
            (#[trigger] rest[i]).op@,
            addr,
        ) by {
            assert(ops[i] == rest[i]);
        }
        untouched(held, rest, from, addr);
        assert(rest.take(from) == ops.take(from));
        assert(!changes(ops[ops.len() - 1].op@, addr));
    }
}

/// A read gives back what was written: once the write of `data` at `addr` has been performed, and
/// nothing performed after it changes that address, whoever reads the address gets `data`, whatever
/// else was performed before and since. `written` is any request that `write_addr` makes of `data`.
pub proof fn reads_give_back_what_was_written(
    store: StorageView,
    held: Map<Seq<u8>, Seq<u8>>,
    ops: Seq<Queued>,
    written: int,
    addr: Seq<u8>,
    data: Seq<u8>,
)
    requires
        0 <= written < ops.len(),
        store.is_write_of(Ok(ops[written].op), addr, data),
        forall|i: int| written < i < ops.len() ==> !changes((#[trigger] ops[i]).op@, addr),
    ensures
        store.read_of(addr, found_at(after_ops(held, ops), addr)) == Ok::<Option<Seq<u8>>, StorageErrorView>(
            Some(data),
        ),
{
    untouched(held, ops, written + 1, addr);
    let upto = ops.take(written + 1);
    assert(upto.drop_last() == ops.take(written));
    assert(upto.last() == ops[written]);
}

/// What was deleted is gone: once a delete of `addr` has been performed, and nothing performed after
/// it changes that address, a read finds nothing there.
pub proof fn deleted_values_are_gone(
    store: StorageView,
    held: Map<Seq<u8>, Seq<u8>>,
    ops: Seq<Queued>,
    deleted: int,
    addr: Seq<u8>,
)
    requires
        0 <= deleted < ops.len(),
        ops[deleted].op@ == (VaultOpView::Delete { addr }),
        forall|i: int| deleted < i < ops.len() ==> !changes((#[trigger] ops[i]).op@, addr),
    ensures
        store.read_of(addr, found_at(after_ops(held, ops), addr)) == Ok::<Option<Seq<u8>>, StorageErrorView>(
            None,
        ),
{
    untouched(held, ops, deleted + 1, addr);
    let upto = ops.take(deleted + 1);
    assert(upto.drop_last() == ops.take(deleted));
    assert(upto.last() == ops[deleted]);
}

/// What was never written is not there, and reading changes nothing: as long as nothing performed
/// changes an address, a reader gets what it held at first.
pub proof fn other_addresses_stay(
    store: StorageView,
    held: Map<Seq<u8>, Seq<u8>>,
    ops: Seq<Queued>,
    addr: Seq<u8>,
)
    requires
        forall|i: int| 0 <= i < ops.len() ==> !changes((#[trigger] ops[i]).op@, addr),
    ensures
        store.read_of(addr, found_at(after_ops(held, ops), addr)) == store.read_of(
            addr,
            found_at(held, addr),
        ),
        !held.dom().contains(addr) ==> store.read_of(addr, found_at(after_ops(held, ops), addr))
            == Ok::<Option<Seq<u8>>, StorageErrorView>(None),
{
    untouched(held, ops, 0, addr);
    assert(ops.take(0) == Seq::<Queued>::empty());
}

/// Read your writes: a write is answered only once it is performed, so whoever waits for that answer
/// and then reads does so in a later round, and gets what was written, in whatever rounds others'
/// requests are served, as long as no mutation that arrived after the write changes the address.
/// `written` is the write's place among the mutations that arrived.
pub proof fn read_your_writes(
    store: StorageView,
    held: Map<Seq<u8>, Seq<u8>>,
    batches: Seq<Seq<Queued>>,
    round: int,
    written: int,
    addr: Seq<u8>,
    data: Seq<u8>,
)
    requires
        0 <= round <= batches.len(),
        0 <= written < served(batches.take(round)).performed.len(),
        store.is_write_of(
            Ok(librarian::mutations_of(in_order(batches.take(round)))[written].op),
            addr,
            data,
        ),
        forall|i: int|
            written < i < librarian::mutations_of(in_order(batches.take(round))).len() ==> !changes(
                (#[trigger] librarian::mutations_of(in_order(batches.take(round)))[i]).op@,
                addr,
            ),
    ensures
        store.read_of(
            addr,
            found_at(after_ops(held, served(batches.take(round)).performed), addr),
        ) == Ok::<Option<Seq<u8>>, StorageErrorView>(Some(data)),
{
    let upto = batches.take(round);
    let ops = served(upto).performed;
    let mutations = librarian::mutations_of(in_order(upto));
    mutations_keep_their_order(upto);
    assert forall|i: int| 0 <= i < ops.len() implies #[trigger] ops[i] == mutations[i] by {
        assert((ops + served(upto).pending)[i] == ops[i]);
    }
    reads_give_back_what_was_written(store, held, ops, written, addr, data);
}

/// A value is bound to its address: the bytes stored for one address are no value at another. The
/// address enters the cipher key in full, and where the cipher refuses the bytes under the other
/// address's key, reading them there is the cipher's error, never the value.
pub proof fn values_are_bound_to_their_address(
    store: StorageView,
    written: VaultOp,
    data: Seq<u8>,
    stored: Seq<u8>,
    a: Seq<u8>,
    b: Seq<u8>,
)
    requires
        store.encrypt,
        store.is_write_of(Ok(written), a, data),
        written@ == (VaultOpView::Put { addr: a, stored }),
        a.len() == b.len(),
        a != b,
        crypto::aead_opened(
            store.key_of(b),
            stored.take(crypto::NONCE_LEN as int),
            stored.skip(crypto::NONCE_LEN as int),
        ) is None,
    ensures
        a + store.vault_seed + store.secret != b + store.vault_seed + store.secret,
        store.read_of(a, Some(stored)) == Ok::<Option<Seq<u8>>, StorageErrorView>(Some(data)),
        store.read_of(b, Some(stored)) == Err::<Option<Seq<u8>>, StorageErrorView>(
            StorageErrorView::Crypto(crypto::cipher_error_text()),
        ),
{
    let input_a = a + store.vault_seed + store.secret;
    let input_b = b + store.vault_seed + store.secret;
    assert(a == input_a.take(a.len() as int));
    assert(b == input_b.take(b.len() as int));
}

/// The string and the byte-addressed interface are one: a value written under a string reads back
/// the same by the address that the string hashes to, and the other way round.
pub proof fn strings_and_addresses_agree(
    store: StorageView,
    held: Map<Seq<u8>, Seq<u8>>,
    ops: Seq<Queued>,
    written: int,
    key: Seq<char>,
    addr: Seq<u8>,
    data: Seq<u8>,
)
    requires
        addr == store.addr_of(key),
        0 <= written < ops.len(),
        store.is_write_of(Ok(ops[written].op), store.addr_of(key), data) || store.is_write_of(
            Ok(ops[written].op),
            addr,
            data,
        ),
        forall|i: int| written < i < ops.len() ==> !changes((#[trigger] ops[i]).op@, addr),
    ensures
        store.read_of(addr, found_at(after_ops(held, ops), addr)) == Ok::<
            Option<Seq<u8>>,
            StorageErrorView,
        >(Some(data)),
        store.read_of(store.addr_of(key), found_at(after_ops(held, ops), store.addr_of(key)))
            == Ok::<Option<Seq<u8>>, StorageErrorView>(Some(data)),
{
    reads_give_back_what_was_written(store, held, ops, written, addr, data);
}

/// The same app, seed and secret read the same vault anywhere: what one store's bytes stand for,
/// they stand for in any other store of these three, whatever its mirrors went through.
pub proof fn the_same_names_read_the_same(
    a: StorageView,
    b: StorageView,
    key: Seq<char>,
    addr: Seq<u8>,
    found: Option<Seq<u8>>,
)
    requires
        a.app_id == b.app_id,
        a.vault_seed == b.vault_seed,
        a.secret == b.secret,
        a.encrypt == b.encrypt,
    ensures
        a.addr_of(key) == b.addr_of(key),
        a.key_of(addr) == b.key_of(addr),
        a.read_of(addr, found) == b.read_of(addr, found),
{
}

/// A plaintext store keeps values as they are, refuses none, and opens whatever is there.
pub proof fn plaintext_is_stored_as_is(
    store: StorageView,
    addr: Seq<u8>,
    data: Seq<u8>,
    nonce: Seq<u8>,
)
    requires
        !store.encrypt,
    ensures
        !store.refuses(data.len()),
        store.stored_form(addr, data, nonce) == Ok::<Seq<u8>, StorageErrorView>(data),
        store.value_in(addr, data) == Ok::<Seq<u8>, StorageErrorView>(data),
{
}

} // verus!
