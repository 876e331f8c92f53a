//! The librarian: one owner of the vault engine, and the order in which it serves what is asked.
//!
//! Callers queue requests; the librarian works in rounds. A round answers every queued read, in
//! the order the reads arrived, and then performs one mutation, the one that arrived first. A read
//! therefore waits for at most the one write that is already under way, never for a queue of them,
//! while mutations keep their order among themselves.

use std::collections::VecDeque;
use vstd::prelude::*;

verus! {

/// One request to the vault engine.
pub enum VaultOp {
    /// What is stored at an address.
    Get { addr: [u8; 32] },
    /// Store bytes at an address.
    Put { addr: [u8; 32], stored: Vec<u8> },
    /// Remove what is stored at an address.
    Delete { addr: [u8; 32] },
    /// Whether a mirror has been lost.
    Degraded,
}

/// A [`VaultOp`] as plain mathematics.
#[verifier::ext_equal]
pub enum VaultOpView {
    Get { addr: Seq<u8> },
    Put { addr: Seq<u8>, stored: Seq<u8> },
    Delete { addr: Seq<u8> },
    Degraded,
}

impl View for VaultOp {
    type V = VaultOpView;

    open spec fn view(&self) -> VaultOpView {
        match self {
            VaultOp::Get { addr } => VaultOpView::Get { addr: addr@ },
            VaultOp::Put { addr, stored } => VaultOpView::Put { addr: addr@, stored: stored@ },
            VaultOp::Delete { addr } => VaultOpView::Delete { addr: addr@ },
            VaultOp::Degraded => VaultOpView::Degraded,
        }
    }
}

impl VaultOp {
    /// Whether the request changes what the vault holds.
    pub open spec fn mutates(&self) -> bool {
        self is Put || self is Delete
    }

    /// Whether the request changes what the vault holds.
    pub fn is_mutation(&self) -> (mutates: bool)
        ensures
            mutates == self.mutates(),
            mutates <==> self is Put || self is Delete,
            !mutates <==> self is Get || self is Degraded,
    {
        match self {
            VaultOp::Put { .. } => true,
            VaultOp::Delete { .. } => true,
            _ => false,
        }
    }
}

/// A queued request, and the ticket under which its reply is owed.
pub struct Queued {
    pub ticket: u64,
    pub op: VaultOp,
}

/// The reads among `queue`, in order.
pub open spec fn reads_of(queue: Seq<Queued>) -> Seq<Queued>
    decreases queue.len(),
{
    if queue.len() == 0 {
        Seq::empty()
    } else if queue.last().op.mutates() {
        reads_of(queue.drop_last())
    } else {
        reads_of(queue.drop_last()).push(queue.last())
    }
}

/// The mutations among `queue`, in order.
pub open spec fn mutations_of(queue: Seq<Queued>) -> Seq<Queued>
    decreases queue.len(),
{
    if queue.len() == 0 {
        Seq::empty()
    } else if queue.last().op.mutates() {
        mutations_of(queue.drop_last()).push(queue.last())
    } else {
        mutations_of(queue.drop_last())
    }
}

/// One round's work: the reads to answer, then the mutation to perform.
pub struct Round {
    pub reads: Vec<Queued>,
    pub mutation: Option<Queued>,
}

/// The first of `s`, if there is one.
pub open spec fn first_of(s: Seq<Queued>) -> Option<Queued> {
    if s.len() == 0 {
        None
    } else {
        Some(s[0])
    }
}

/// `s` without its first.
pub open spec fn rest_of(s: Seq<Queued>) -> Seq<Queued> {
    if s.len() == 0 {
        s
    } else {
        s.skip(1)
    }
}

/// The librarian's queue.
pub struct Librarian {
    pending: VecDeque<Queued>,
}

impl View for Librarian {
    type V = Seq<Queued>;

    /// What is queued, oldest first.
    closed spec fn view(&self) -> Seq<Queued> {
        self.pending@
    }
}

impl Librarian {
    /// A librarian with nothing to do.
    pub fn new() -> (librarian: Librarian)
        ensures
            librarian@ == Seq::<Queued>::empty(),
    {
        Librarian { pending: VecDeque::new() }
    }

    /// Whether nothing is queued: the time to wait for a request.
    pub fn is_idle(&self) -> (idle: bool)
        ensures
            idle == (self@.len() == 0),
    {
        self.pending.len() == 0
    }

    /// Takes a request into the queue, behind those already there.
    pub fn enqueue(&mut self, ticket: u64, op: VaultOp)
        ensures
            final(self)@ == old(self)@.push((Queued { ticket, op })),
    {
        self.pending.push_back(Queued { ticket, op });
    }

    /// Takes in what came of waiting for a request: one, or word that none will ever come again.
    /// Says whether to go on, which is so as long as anything is queued: the librarian never ends
    /// with work undone.
    pub fn receive(&mut self, mail: Option<Queued>) -> (goes_on: bool)
        ensures
            match mail {
                Some(queued) => goes_on && final(self)@ == old(self)@.push(queued),
                None => goes_on == (old(self)@.len() > 0) && final(self)@ == old(self)@,
            },
    {
        match mail {
            Some(queued) => {
                self.pending.push_back(queued);
                true
            },
            None => self.pending.len() > 0,
        }
    }

    /// Plans one round: every queued read, in order, then the oldest queued mutation. The younger
    /// mutations stay queued.
    pub fn next_round(&mut self) -> (round: Round)
        ensures
            round.reads@ == reads_of(old(self)@),
            round.mutation == first_of(mutations_of(old(self)@)),
            final(self)@ == rest_of(mutations_of(old(self)@)),
            round.reads@ == old(self)@.filter(|q: Queued| q.op is Get || q.op is Degraded),
            old(self)@.filter(|q: Queued| q.op is Put || q.op is Delete) == (match round.mutation {
                Some(first) => seq![first] + final(self)@,
                None => final(self)@,
            }),
            round.mutation is None ==> final(self)@.len() == 0,
    {
        let ghost all = self@;
        let ghost mut done: int = 0;
        let mut reads: Vec<Queued> = Vec::new();
        let mut mutation: Option<Queued> = None;
        let mut later: VecDeque<Queued> = VecDeque::new();
        assert(all.skip(0) == all);
        loop
            invariant
                0 <= done <= all.len(),
                self.pending@ == all.skip(done),
                reads@ == reads_of(all.take(done)),
                mutation == first_of(mutations_of(all.take(done))),
                later@ == rest_of(mutations_of(all.take(done))),
            ensures
                done == all.len(),
            decreases all.len() - done,
        {
            let queued = match self.pending.pop_front() {
                Some(queued) => queued,
                None => break,
            };
            let ghost seen = all.take(done);
            let ghost next = all.take(done + 1);
            proof {
                done = done + 1;
            }
            assert(next.drop_last() == seen);
            assert(next.last() == queued);
            if queued.op.is_mutation() {
                assert(mutations_of(next) == mutations_of(seen).push(queued));
                if mutation.is_none() {
                    mutation = Some(queued);
                    assert(rest_of(mutations_of(next)) == Seq::<Queued>::empty());
                } else {
                    later.push_back(queued);
                    assert(rest_of(mutations_of(next)) == rest_of(mutations_of(seen)).push(queued));
                }
            } else {
                reads.push(queued);
            }
        }
        assert(all.take(all.len() as int) == all);
        self.pending = later;
        proof {
            reads_are_gets_and_health(all, |q: Queued| q.op is Get || q.op is Degraded);
            mutations_are_puts_and_deletes(all, |q: Queued| q.op is Put || q.op is Delete);
            assert(mutation matches Some(first) ==> seq![first] + later@ == mutations_of(all));
        }
        Round { reads, mutation }
    }
}

/// The reads of a queue are its gets and its questions about health, all of them, in order.
pub proof fn reads_are_gets_and_health(queue: Seq<Queued>, wanted: spec_fn(Queued) -> bool)
    requires
        forall|q: Queued| #[trigger] wanted(q) <==> q.op is Get || q.op is Degraded,
    ensures
        reads_of(queue) == queue.filter(wanted),
    decreases queue.len(),
{
    reveal(Seq::filter);
    if queue.len() > 0 {
        reads_are_gets_and_health(queue.drop_last(), wanted);
    }
}

/// The mutations of a queue are its puts and its deletes, whatever they carry, all of them, in order.
pub proof fn mutations_are_puts_and_deletes(queue: Seq<Queued>, wanted: spec_fn(Queued) -> bool)
    requires
        forall|q: Queued| #[trigger] wanted(q) <==> q.op is Put || q.op is Delete,
    ensures
        mutations_of(queue) == queue.filter(wanted),
    decreases queue.len(),
{
    reveal(Seq::filter);
    if queue.len() > 0 {
        mutations_are_puts_and_deletes(queue.drop_last(), wanted);
    }
}

/// A request changes what the vault holds exactly if it puts or deletes.
pub proof fn puts_and_deletes_mutate(op: VaultOp)
    ensures
        op.mutates() <==> op is Put || op is Delete,
        !op.mutates() <==> op is Get || op is Degraded,
        op.mutates() <==> op@ is Put || op@ is Delete,
{
}

/// A request's view keeps all of it: two requests with one view ask the same.
pub proof fn request_views_tell_requests_apart(a: VaultOp, b: VaultOp)
    requires
        a@ == b@,
    ensures
        match (a, b) {
            (VaultOp::Get { addr: x }, VaultOp::Get { addr: y }) => x@ == y@,
            (VaultOp::Put { addr: x, stored: v }, VaultOp::Put { addr: y, stored: w }) => x@ == y@
                && v@ == w@,
            (VaultOp::Delete { addr: x }, VaultOp::Delete { addr: y }) => x@ == y@,
            (VaultOp::Degraded, VaultOp::Degraded) => true,
            _ => false,
        },
{
}

} // verus!
