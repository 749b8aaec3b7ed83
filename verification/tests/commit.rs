use std::collections::HashMap;
use tikka::commit::{submit_commit, CommitBook, InstanceError};
use tikka::Address;

fn addr(s: &str) -> Address {
    Address::from_strkey(s.to_string())
}

/// A commit-reveal raffle with `sold` tickets, all bought by `GBUYER`;
/// selling out ends the `Active` phase.
fn commit_reveal_raffle(max_tickets: u32, sold: u32) -> CommitBook {
    let mut ticket_owners = HashMap::new();
    for id in 1..=sold {
        ticket_owners.insert(id, addr("GBUYER"));
    }
    CommitBook {
        initialized: true,
        commit_reveal: true,
        active: sold < max_tickets,
        paused: false,
        ticket_owners,
        commits: HashMap::new(),
    }
}

#[test]
fn submit_commit_rejects_overwrite_attack() {
    let mut book = commit_reveal_raffle(10, 1);
    let buyer = addr("GBUYER");
    let ticket_id: u32 = 1;
    let hash1 = [1u8; 32];
    let hash2 = [2u8; 32];

    assert_eq!(submit_commit(&mut book, &buyer, ticket_id, hash1, false), Ok(()));
    assert_eq!(
        submit_commit(&mut book, &buyer, ticket_id, hash2, false),
        Err(InstanceError::CommitAlreadySubmitted)
    );

    let stored = book.get_commit(ticket_id).expect("commit entry must exist");
    assert_eq!(stored.hash, hash1);
}

#[test]
fn submit_commit_rejects_when_not_active() {
    let mut book = commit_reveal_raffle(1, 1);
    let hash = [3u8; 32];
    assert_eq!(
        submit_commit(&mut book, &addr("GBUYER"), 1, hash, false),
        Err(InstanceError::InvalidStatus)
    );
}

#[test]
fn submit_commit_requires_commit_reveal_mode() {
    let mut book = commit_reveal_raffle(10, 1);
    book.commit_reveal = false;
    assert_eq!(
        submit_commit(&mut book, &addr("GBUYER"), 1, [4u8; 32], false),
        Err(InstanceError::InvalidParameters)
    );
}

#[test]
fn submit_commit_is_blocked_by_either_pause() {
    let mut book = commit_reveal_raffle(10, 1);
    assert_eq!(
        submit_commit(&mut book, &addr("GBUYER"), 1, [5u8; 32], true),
        Err(InstanceError::ContractPaused)
    );
    book.paused = true;
    assert_eq!(
        submit_commit(&mut book, &addr("GBUYER"), 1, [5u8; 32], false),
        Err(InstanceError::ContractPaused)
    );
    assert!(book.get_commit(1).is_none());
}

#[test]
fn submit_commit_needs_a_sold_ticket_and_its_owner() {
    let mut book = commit_reveal_raffle(10, 1);
    assert_eq!(
        submit_commit(&mut book, &addr("GBUYER"), 2, [6u8; 32], false),
        Err(InstanceError::TicketNotFound)
    );
    assert_eq!(
        submit_commit(&mut book, &addr("GSTRANGER"), 1, [6u8; 32], false),
        Err(InstanceError::NotAuthorized)
    );
    book.initialized = false;
    assert_eq!(
        submit_commit(&mut book, &addr("GBUYER"), 1, [6u8; 32], false),
        Err(InstanceError::NotInitialized)
    );
}

#[test]
fn stored_commit_records_the_ticket_owner() {
    let mut book = commit_reveal_raffle(10, 2);
    submit_commit(&mut book, &addr("GBUYER"), 2, [7u8; 32], false).unwrap();
    let stored = book.get_commit(2).unwrap();
    assert_eq!(stored.committer.strkey, "GBUYER");
    assert_eq!(stored.hash, [7u8; 32]);
}
