//! Ticket commitments of a raffle instance that draws by commit-reveal.
//!
//! Each ticket's owner may submit one hash commitment while the raffle is
//! active; a commitment, once stored, is never replaced.
use crate::address::Address;
use std::collections::HashMap;
use vstd::prelude::*;

verus! {

broadcast use vstd::std_specs::hash::group_hash_axioms;

/// Errors of a raffle instance's commit phase.
#[derive(Clone, Copy, Debug, PartialEq, Eq, Structural)]
pub enum InstanceError {
    NotInitialized,
    InvalidParameters,
    InvalidStatus,
    ContractPaused,
    TicketNotFound,
    NotAuthorized,
    CommitAlreadySubmitted,
}

/// A stored commitment: who committed, and the hash.
pub struct CommitRevealEntry {
    pub committer: Address,
    pub hash: [u8; 32],
}

/// The part of a raffle instance's storage the commit phase reads and
/// writes.
pub struct CommitBook {
    /// The raffle has been initialized.
    pub initialized: bool,
    /// The raffle draws its winners by commit-reveal.
    pub commit_reveal: bool,
    /// The raffle's status is `Active`.
    pub active: bool,
    /// The instance is paused.
    pub paused: bool,
    /// Owner of each sold ticket, by ticket id.
    pub ticket_owners: HashMap<u32, Address>,
    /// Commitments, by ticket id.
    pub commits: HashMap<u32, CommitRevealEntry>,
}

/// The commit book as mathematical values.
pub struct CommitBookModel {
    pub initialized: bool,
    pub commit_reveal: bool,
    pub active: bool,
    pub paused: bool,
    pub ticket_owners: Map<u32, Address>,
    pub commits: Map<u32, CommitRevealEntry>,
}

impl CommitBook {
    /// The storage as mathematical values.
    pub open spec fn model(&self) -> CommitBookModel {
        CommitBookModel {
            initialized: self.initialized,
            commit_reveal: self.commit_reveal,
            active: self.active,
            paused: self.paused,
            ticket_owners: self.ticket_owners@,
            commits: self.commits@,
        }
    }
}

/// Why committing `ticket_id` fails, if it does.
pub open spec fn commit_error(
    m: CommitBookModel,
    invoker: Seq<char>,
    ticket_id: u32,
    globally_paused: bool,
) -> Option<InstanceError> {
    if !m.initialized {
        Some(InstanceError::NotInitialized)
    } else if !m.commit_reveal {
        Some(InstanceError::InvalidParameters)
    } else if !m.active {
        Some(InstanceError::InvalidStatus)
    } else if m.paused || globally_paused {
        Some(InstanceError::ContractPaused)
    } else if !m.ticket_owners.contains_key(ticket_id) {
        Some(InstanceError::TicketNotFound)
    } else if m.ticket_owners[ticket_id]@ != invoker {
        Some(InstanceError::NotAuthorized)
    } else if m.commits.contains_key(ticket_id) {
        Some(InstanceError::CommitAlreadySubmitted)
    } else {
        None
    }
}

impl CommitBook {
    /// The commitment for ticket `ticket_id`, if one was submitted.
    pub fn get_commit(&self, ticket_id: u32) -> (r: Option<CommitRevealEntry>)
        ensures
            match r {
                Some(c) => self.model().commits.contains_key(ticket_id) && c
                    == self.model().commits[ticket_id],
                None => !self.model().commits.contains_key(ticket_id),
            },
    {
        match self.commits.get(&ticket_id) {
            Some(c) => Some(CommitRevealEntry { committer: c.committer.duplicate(), hash: c.hash }),
            None => None,
        }
    }
}

/// Submits the one-time commitment `hash` for ticket `ticket_id`, on
/// behalf of the ticket's owner. Commits close once the raffle leaves
/// `Active`; the instance pause and the platform's emergency pause
/// (`globally_paused`) both block them.
pub fn submit_commit(
    book: &mut CommitBook,
    invoker: &Address,
    ticket_id: u32,
    hash: [u8; 32],
    globally_paused: bool,
) -> (r: Result<(), InstanceError>)
    ensures
        match commit_error(old(book).model(), invoker@, ticket_id, globally_paused) {
            Some(e) => r == Err::<(), InstanceError>(e) && final(book).model() == old(book).model(),
            None => r is Ok && final(book).model() == (CommitBookModel {
                commits: old(book).model().commits.insert(
                    ticket_id,
                    CommitRevealEntry {
                        committer: old(book).model().ticket_owners[ticket_id],
                        hash: hash,
                    },
                ),
                ..old(book).model()
            }),
        },
{
    if !book.initialized {
        return Err(InstanceError::NotInitialized);
    }
    if !book.commit_reveal {
        return Err(InstanceError::InvalidParameters);
    }
    if !book.active {
        return Err(InstanceError::InvalidStatus);
    }
    if book.paused || globally_paused {
        return Err(InstanceError::ContractPaused);
    }
    let owner = match book.ticket_owners.get(&ticket_id) {
        Some(o) => o.duplicate(),
        None => {
            return Err(InstanceError::TicketNotFound);
        },
    };
    if !owner.same_as(invoker) {
        return Err(InstanceError::NotAuthorized);
    }
    if book.commits.contains_key(&ticket_id) {
        return Err(InstanceError::CommitAlreadySubmitted);
    }
    book.commits.insert(ticket_id, CommitRevealEntry { committer: owner, hash });
    Ok(())
}

/// A commitment, once stored, is never replaced: a second submission for
/// the same ticket fails, whoever submits it, and leaves the stored
/// commitment as it was.
pub proof fn lemma_commit_is_final(
    m: CommitBookModel,
    invoker: Seq<char>,
    ticket_id: u32,
    globally_paused: bool,
)
    requires
        m.commits.contains_key(ticket_id),
    ensures
        commit_error(m, invoker, ticket_id, globally_paused) is Some,
{
}

} // verus!
