use kete::{Librarian, Queued, Round, VaultOp};

fn get(n: u8) -> VaultOp {
    VaultOp::Get { addr: [n; 32] }
}

fn put(n: u8) -> VaultOp {
    VaultOp::Put { addr: [n; 32], stored: vec![n] }
}

fn delete(n: u8) -> VaultOp {
    VaultOp::Delete { addr: [n; 32] }
}

fn tickets(round: &Round) -> (Vec<u64>, Option<u64>) {
    (
        round.reads.iter().map(|q| q.ticket).collect(),
        round.mutation.as_ref().map(|q| q.ticket),
    )
}

#[test]
fn reads_jump_queued_writes() {
    let mut librarian = Librarian::new();
    librarian.enqueue(1, put(1));
    librarian.enqueue(2, put(2));
    librarian.enqueue(3, get(1));
    librarian.enqueue(4, delete(3));
    librarian.enqueue(5, VaultOp::Degraded);
    assert_eq!(tickets(&librarian.next_round()), (vec![3, 5], Some(1)));
    assert_eq!(tickets(&librarian.next_round()), (vec![], Some(2)));
    librarian.enqueue(6, get(9));
    assert_eq!(tickets(&librarian.next_round()), (vec![6], Some(4)));
    assert!(librarian.is_idle());
    assert_eq!(tickets(&librarian.next_round()), (vec![], None));
}

#[test]
fn mutations_keep_their_order_and_none_is_lost() {
    let mut librarian = Librarian::new();
    let mut performed = Vec::new();
    for batch in 0u64..10 {
        for i in 0..3 {
            let ticket = batch * 3 + i;
            librarian.enqueue(ticket, if ticket % 2 == 0 { put(1) } else { delete(1) });
        }
        if let Some(q) = librarian.next_round().mutation {
            performed.push(q.ticket);
        }
    }
    while !librarian.is_idle() {
        let round = librarian.next_round();
        assert!(round.reads.is_empty());
        performed.push(round.mutation.unwrap().ticket);
    }
    assert_eq!(performed, (0u64..30).collect::<Vec<_>>());
}

#[test]
fn only_puts_and_deletes_mutate() {
    assert!(!get(1).is_mutation());
    assert!(put(1).is_mutation());
    assert!(delete(1).is_mutation());
    assert!(!VaultOp::Degraded.is_mutation());
}

#[test]
fn a_closed_mailbox_ends_the_work_only_when_it_is_done() {
    let mut librarian = Librarian::new();
    assert!(librarian.receive(Some(Queued { ticket: 1, op: put(1) })));
    librarian.enqueue(2, get(1));
    librarian.enqueue(3, delete(1));
    let mut order = Vec::new();
    while librarian.receive(None) {
        let (reads, mutation) = tickets(&librarian.next_round());
        order.extend(reads);
        order.extend(mutation);
    }
    assert!(librarian.is_idle());
    assert_eq!(order, [2, 1, 3]);
}
