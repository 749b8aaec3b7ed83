//! The admin's operations: pausing, the two-step admin transfer, creation
//! controls, the partner whitelist, emergency pause, upgrades, token rescue,
//! instance control and raffle cleanup.
//!
//! Operations that act on another contract or on the factory's own code
//! check and record here, and return what the host has to do.
use crate::address::Address;
use crate::creation::profile_of;
use crate::factory::{admin_of, is_admin, valid_role, FactoryModel, RaffleFactory};
use crate::types::{
    ContractError, ContractPaused, ContractUnpaused, CreatorProfile, FactoryEvent, ProfileView,
};
use vstd::prelude::*;

verus! {

broadcast use vstd::std_specs::hash::group_hash_axioms;

/// `i` is the first position of `who` in `ps`.
pub open spec fn first_at(ps: Seq<Address>, who: Seq<char>, i: int) -> bool {
    &&& 0 <= i < ps.len()
    &&& ps[i]@ == who
    &&& forall|j: int| 0 <= j < i ==> #[trigger] ps[j]@ != who
}

/// `who` appears in `ps`.
pub open spec fn listed(ps: Seq<Address>, who: Seq<char>) -> bool {
    exists|i: int| 0 <= i < ps.len() && #[trigger] ps[i]@ == who
}

/// The first position of `who` in `ps`, when it is listed.
pub open spec fn position(ps: Seq<Address>, who: Seq<char>) -> int {
    choose|i: int| first_at(ps, who, i)
}

/// The partner list after `partner` is whitelisted (`status`) or removed
/// from the whitelist: added at the end if new, or its first entry removed.
pub open spec fn partners_after(ps: Seq<Address>, partner: Address, status: bool) -> Seq<Address> {
    if status {
        if listed(ps, partner@) {
            ps
        } else {
            ps.push(partner)
        }
    } else if listed(ps, partner@) {
        ps.remove(position(ps, partner@))
    } else {
        ps
    }
}

/// No address appears twice.
pub open spec fn no_repeats(ps: Seq<Address>) -> bool {
    forall|i: int, j: int| 0 <= i < j < ps.len() ==> #[trigger] ps[i]@ != #[trigger] ps[j]@
}

/// What `transfer_factory_admin` does for `invoker` proposing `new_admin`:
/// `None` when it fails with no change; otherwise the new pending admin
/// (`None` when the admin names itself, which clears the proposal).
pub open spec fn transfer_error(
    m: FactoryModel,
    invoker: Seq<char>,
    new_admin: Seq<char>,
) -> Option<ContractError> {
    if !is_admin(m, invoker) {
        Some(ContractError::NotAuthorized)
    } else if new_admin == admin_of(m)@ {
        None
    } else if !valid_role(m, new_admin) {
        Some(ContractError::InvalidParameters)
    } else if m.pending_admin is Some {
        Some(ContractError::AdminTransferPending)
    } else {
        None
    }
}

/// Why `accept_factory_admin` fails, if it does: only the proposed admin
/// may accept, and only while a proposal stands.
pub open spec fn accept_error(m: FactoryModel, invoker: Seq<char>) -> Option<ContractError> {
    if m.pending_admin is None {
        Some(ContractError::NoPendingTransfer)
    } else if m.pending_admin->Some_0@ != invoker {
        Some(ContractError::NotAuthorized)
    } else if m.admin is None {
        Some(ContractError::NotAuthorized)
    } else {
        None
    }
}

/// The state after raffle `raffle_id` is cleaned up: its stable id is
/// tombstoned and the live count goes down (not below 0).
pub open spec fn cleaned(m: FactoryModel, raffle_id: u32) -> FactoryModel {
    FactoryModel {
        raffle_by_id: m.raffle_by_id.remove(raffle_id),
        raffle_count: if m.raffle_count == 0 {
            0
        } else {
            (m.raffle_count - 1) as u32
        },
        ..m
    }
}

/// A token transfer the factory asks the host to make.
pub struct TokenTransfer {
    pub token: Address,
    pub from: Address,
    pub to: Address,
    pub amount: i128,
}

/// The first position of `who` in `ps`, if it is listed.
fn find_partner(ps: &Vec<Address>, who: &Address) -> (r: Option<usize>)
    ensures
        match r {
            Some(k) => first_at(ps@, who@, k as int),
            None => forall|j: int| 0 <= j < ps@.len() ==> #[trigger] ps@[j]@ != who@,
        },
{
    let mut i: usize = 0;
    while i < ps.len()
        invariant
            i <= ps@.len(),
            forall|j: int| 0 <= j < i ==> #[trigger] ps@[j]@ != who@,
        decreases ps@.len() - i,
    {
        if ps[i].same_as(who) {
            return Some(i);
        }
        i = i + 1;
    }
    None
}

/// Copies a partner list without its entry at `skip`.
fn without_position(ps: &Vec<Address>, skip: usize) -> (r: Vec<Address>)
    requires
        skip < ps@.len(),
    ensures
        r@ == ps@.remove(skip as int),
{
    let mut out: Vec<Address> = Vec::new();
    let mut i: usize = 0;
    while i < ps.len()
        invariant
            i <= ps@.len(),
            skip < ps@.len(),
            out@ == if i <= skip {
                ps@.subrange(0, i as int)
            } else {
                ps@.subrange(0, skip as int) + ps@.subrange(skip + 1, i as int)
            },
        decreases ps@.len() - i,
    {
        if i != skip {
            out.push(ps[i].duplicate());
        }
        proof {
            if i < skip {
                assert(ps@.subrange(0, i + 1) =~= ps@.subrange(0, i as int).push(ps@[i as int]));
            } else if i > skip {
                assert(ps@.subrange(skip + 1, i + 1) =~= ps@.subrange(skip + 1, i as int).push(
                    ps@[i as int],
                ));
            } else {
                assert(ps@.subrange(skip + 1, i + 1) =~= Seq::<Address>::empty());
            }
        }
        i = i + 1;
    }
    proof {
        assert(out@ =~= ps@.remove(skip as int));
    }
    out
}

impl RaffleFactory {
    /// Pauses the factory: creating raffles and schedules is refused until
    /// it is unpaused.
    pub fn pause_factory(&mut self, events: &mut Vec<FactoryEvent>, now: u64, invoker: &Address) -> (r:
        Result<(), ContractError>)
        ensures
            r is Ok <==> is_admin(old(self).model(), invoker@),
            r matches Err(e) ==> e == ContractError::NotAuthorized && final(self).model() == old(self).model() && final(events)@ == old(events)@,
            r is Ok ==> final(self).model() == (FactoryModel { paused: true, ..old(self).model() })
                && final(events)@ == old(events)@.push(
                FactoryEvent::Paused(
                    ContractPaused { paused_by: admin_of(old(self).model()), timestamp: now },
                ),
            ),
    {
        let admin = self.require_admin(invoker)?;
        self.paused = true;
        events.push(FactoryEvent::Paused(ContractPaused { paused_by: admin, timestamp: now }));
        Ok(())
    }

    /// Lifts the factory pause.
    pub fn unpause_factory(&mut self, events: &mut Vec<FactoryEvent>, now: u64, invoker: &Address) -> (r:
        Result<(), ContractError>)
        ensures
            r is Ok <==> is_admin(old(self).model(), invoker@),
            r matches Err(e) ==> e == ContractError::NotAuthorized && final(self).model() == old(self).model() && final(events)@ == old(events)@,
            r is Ok ==> final(self).model() == (FactoryModel { paused: false, ..old(self).model() })
                && final(events)@ == old(events)@.push(
                FactoryEvent::Unpaused(
                    ContractUnpaused { unpaused_by: admin_of(old(self).model()), timestamp: now },
                ),
            ),
    {
        let admin = self.require_admin(invoker)?;
        self.paused = false;
        events.push(FactoryEvent::Unpaused(ContractUnpaused { unpaused_by: admin, timestamp: now }));
        Ok(())
    }

    /// Proposes `new_admin` as the next admin; it takes over once it
    /// accepts. One proposal stands at a time; the admin naming itself
    /// withdraws the proposal.
    pub fn transfer_factory_admin(
        &mut self,
        events: &mut Vec<FactoryEvent>,
        now: u64,
        invoker: &Address,
        new_admin: Address,
    ) -> (r: Result<(), ContractError>)
        ensures
            match transfer_error(old(self).model(), invoker@, new_admin@) {
                Some(e) => r == Err::<(), ContractError>(e) && final(self).model() == old(self).model() && final(events)@ == old(events)@,
                None => r is Ok && if new_admin@ == admin_of(old(self).model())@ {
                    final(self).model() == (FactoryModel { pending_admin: None, ..old(self).model() })
                        && final(events)@ == old(events)@
                } else {
                    final(self).model() == (FactoryModel {
                        pending_admin: Some(new_admin),
                        ..old(self).model()
                    }) && final(events)@ == old(events)@.push(
                        FactoryEvent::AdminTransferProposed {
                            current_admin: admin_of(old(self).model()),
                            proposed_admin: new_admin,
                            timestamp: now,
                        },
                    )
                },
            },
    {
        let admin = self.require_admin(invoker)?;
        if new_admin.same_as(&admin) {
            self.pending_admin = None;
            return Ok(());
        }
        self.require_valid_role_address(&new_admin)?;
        if self.pending_admin.is_some() {
            return Err(ContractError::AdminTransferPending);
        }
        self.pending_admin = Some(new_admin.duplicate());
        events.push(
            FactoryEvent::AdminTransferProposed {
                current_admin: admin,
                proposed_admin: new_admin,
                timestamp: now,
            },
        );
        Ok(())
    }

    /// The proposed admin takes over.
    pub fn accept_factory_admin(&mut self, events: &mut Vec<FactoryEvent>, now: u64, invoker: &Address) -> (r:
        Result<(), ContractError>)
        ensures
            match accept_error(old(self).model(), invoker@) {
                Some(e) => r == Err::<(), ContractError>(e) && final(self).model() == old(self).model() && final(events)@ == old(events)@,
                None => r is Ok && final(self).model() == (FactoryModel {
                    admin: old(self).model().pending_admin,
                    pending_admin: None,
                    ..old(self).model()
                }) && final(events)@ == old(events)@.push(
                    FactoryEvent::AdminTransferAccepted {
                        old_admin: admin_of(old(self).model()),
                        new_admin: old(self).model().pending_admin->Some_0,
                        timestamp: now,
                    },
                ),
            },
    {
        let pending = match &self.pending_admin {
            Some(p) => p.duplicate(),
            None => {
                return Err(ContractError::NoPendingTransfer);
            },
        };
        if !pending.same_as(invoker) {
            return Err(ContractError::NotAuthorized);
        }
        let old_admin = match &self.admin {
            Some(a) => a.duplicate(),
            None => {
                return Err(ContractError::NotAuthorized);
            },
        };
        self.admin = Some(pending.duplicate());
        self.pending_admin = None;
        events.push(
            FactoryEvent::AdminTransferAccepted { old_admin, new_admin: pending, timestamp: now },
        );
        Ok(())
    }

    /// Sets the cooldown between creations of creators who are not
    /// whitelisted partners.
    pub fn set_creation_delay(&mut self, invoker: &Address, delay_seconds: u64) -> (r: Result<
        (),
        ContractError,
    >)
        ensures
            r is Ok <==> is_admin(old(self).model(), invoker@),
            r matches Err(e) ==> e == ContractError::NotAuthorized && final(self).model() == old(self).model(),
            r is Ok ==> final(self).model() == (FactoryModel {
                min_creation_delay: delay_seconds,
                ..old(self).model()
            }),
    {
        self.require_admin(invoker)?;
        self.min_creation_delay = delay_seconds;
        Ok(())
    }

    /// Pauses or resumes the creation of raffles only; everything else
    /// keeps working.
    pub fn set_creation_paused(
        &mut self,
        events: &mut Vec<FactoryEvent>,
        now: u64,
        invoker: &Address,
        paused: bool,
    ) -> (r: Result<(), ContractError>)
        ensures
            r is Ok <==> is_admin(old(self).model(), invoker@),
            r matches Err(e) ==> e == ContractError::NotAuthorized && final(self).model() == old(self).model() && final(events)@ == old(events)@,
            r is Ok ==> final(self).model() == (FactoryModel {
                creation_paused: paused,
                ..old(self).model()
            }) && final(events)@ == old(events)@.push(
                if paused {
                    FactoryEvent::CreationPaused {
                        paused_by: admin_of(old(self).model()),
                        timestamp: now,
                    }
                } else {
                    FactoryEvent::CreationUnpaused {
                        unpaused_by: admin_of(old(self).model()),
                        timestamp: now,
                    }
                },
            ),
    {
        let admin = self.require_admin(invoker)?;
        self.creation_paused = paused;
        if paused {
            events.push(FactoryEvent::CreationPaused { paused_by: admin, timestamp: now });
        } else {
            events.push(FactoryEvent::CreationUnpaused { unpaused_by: admin, timestamp: now });
        }
        Ok(())
    }

    /// Adds `partner` to the whitelist (`status`) or takes it off, keeping
    /// the list of partners in step.
    pub fn set_whitelist_status(&mut self, invoker: &Address, partner: Address, status: bool) -> (r:
        Result<(), ContractError>)
        ensures
            r is Ok <==> is_admin(old(self).model(), invoker@),
            r matches Err(e) ==> e == ContractError::NotAuthorized && final(self).model() == old(self).model(),
            r is Ok ==> final(self).model() == (FactoryModel {
                whitelisted: old(self).model().whitelisted.insert(partner@, status),
                partners: partners_after(old(self).model().partners, partner, status),
                ..old(self).model()
            }),
    {
        self.require_admin(invoker)?;
        self.whitelisted.insert(partner.strkey.clone(), status);
        let existing = find_partner(&self.partners, &partner);
        let ghost ps = self.partners@;
        proof {
            match existing {
                Some(k) => {
                    assert(listed(ps, partner@));
                    assert(first_at(ps, partner@, position(ps, partner@)));
                    let p = position(ps, partner@);
                    if p < k {
                        assert(ps[p]@ != partner@);
                    } else if k < p {
                        assert(ps[k as int]@ != partner@);
                    }
                },
                None => {
                    assert(!listed(ps, partner@));
                },
            }
        }
        if status {
            if existing.is_none() {
                self.partners.push(partner);
            }
        } else {
            match existing {
                Some(idx) => {
                    let next = without_position(&self.partners, idx);
                    self.partners = next;
                },
                None => {},
            }
        }
        Ok(())
    }

    /// Pauses every raffle of the platform in an emergency.
    pub fn emergency_pause_all(
        &mut self,
        events: &mut Vec<FactoryEvent>,
        now: u64,
        invoker: &Address,
        reason: String,
    ) -> (r: Result<(), ContractError>)
        ensures
            r is Ok <==> is_admin(old(self).model(), invoker@),
            r matches Err(e) ==> e == ContractError::NotAuthorized && final(self).model() == old(self).model() && final(events)@ == old(events)@,
            r is Ok ==> final(self).model() == (FactoryModel {
                global_emergency_pause: true,
                ..old(self).model()
            }) && final(events)@ == old(events)@.push(
                FactoryEvent::GlobalEmergencyPaused {
                    paused_by: admin_of(old(self).model()),
                    reason: reason,
                    timestamp: now,
                },
            ),
    {
        let admin = self.require_admin(invoker)?;
        self.global_emergency_pause = true;
        events.push(FactoryEvent::GlobalEmergencyPaused { paused_by: admin, reason, timestamp: now });
        Ok(())
    }

    /// Lifts the emergency pause.
    pub fn emergency_unpause_all(
        &mut self,
        events: &mut Vec<FactoryEvent>,
        now: u64,
        invoker: &Address,
    ) -> (r: Result<(), ContractError>)
        ensures
            r is Ok <==> is_admin(old(self).model(), invoker@),
            r matches Err(e) ==> e == ContractError::NotAuthorized && final(self).model() == old(self).model() && final(events)@ == old(events)@,
            r is Ok ==> final(self).model() == (FactoryModel {
                global_emergency_pause: false,
                ..old(self).model()
            }) && final(events)@ == old(events)@.push(
                FactoryEvent::GlobalEmergencyUnpaused {
                    unpaused_by: admin_of(old(self).model()),
                    timestamp: now,
                },
            ),
    {
        let admin = self.require_admin(invoker)?;
        self.global_emergency_pause = false;
        events.push(FactoryEvent::GlobalEmergencyUnpaused { unpaused_by: admin, timestamp: now });
        Ok(())
    }

    /// Authorizes replacing the factory's own code with `new_wasm_hash`
    /// and records the upgrade; the host swaps the code.
    pub fn upgrade(
        &self,
        events: &mut Vec<FactoryEvent>,
        now: u64,
        invoker: &Address,
        new_wasm_hash: [u8; 32],
    ) -> (r: Result<(), ContractError>)
        ensures
            r is Ok <==> is_admin(self.model(), invoker@),
            r matches Err(e) ==> e == ContractError::NotAuthorized && final(events)@ == old(events)@,
            r is Ok ==> final(events)@ == old(events)@.push(
                FactoryEvent::FactoryUpgraded {
                    admin: admin_of(self.model()),
                    new_wasm_hash: new_wasm_hash,
                    timestamp: now,
                },
            ),
    {
        let admin = self.require_admin(invoker)?;
        events.push(FactoryEvent::FactoryUpgraded { admin, new_wasm_hash, timestamp: now });
        Ok(())
    }

    /// Checks a request to sweep `amount` of `token` sent to the factory
    /// by mistake over to `recipient`, and says which transfer to make.
    pub fn rescue_tokens(&self, invoker: &Address, token: Address, recipient: Address, amount: i128) -> (r:
        Result<TokenTransfer, ContractError>)
        ensures
            !is_admin(self.model(), invoker@) ==> r == Err::<TokenTransfer, ContractError>(
                ContractError::NotAuthorized,
            ),
            is_admin(self.model(), invoker@) && amount <= 0 ==> r == Err::<
                TokenTransfer,
                ContractError,
            >(ContractError::InvalidParameters),
            is_admin(self.model(), invoker@) && amount > 0 ==> r == Ok::<
                TokenTransfer,
                ContractError,
            >(TokenTransfer { token, from: self.self_address, to: recipient, amount }),
    {
        self.require_admin(invoker)?;
        if amount <= 0 {
            return Err(ContractError::InvalidParameters);
        }
        Ok(TokenTransfer { token, from: self.self_address.duplicate(), to: recipient, amount })
    }

    /// Records the outcome of a rescue transfer: a failed transfer is
    /// refused as `InvalidParameters`; a made one is published.
    pub fn confirm_rescue(
        &self,
        events: &mut Vec<FactoryEvent>,
        now: u64,
        transfer: TokenTransfer,
        transferred: bool,
    ) -> (r: Result<(), ContractError>)
        requires
            self.model().admin is Some,
        ensures
            r is Ok <==> transferred,
            r matches Err(e) ==> e == ContractError::InvalidParameters && final(events)@ == old(events)@,
            r is Ok ==> final(events)@ == old(events)@.push(
                FactoryEvent::FactoryTokensRescued {
                    rescued_by: admin_of(self.model()),
                    token: transfer.token,
                    recipient: transfer.to,
                    amount: transfer.amount,
                    timestamp: now,
                },
            ),
    {
        if !transferred {
            return Err(ContractError::InvalidParameters);
        }
        let admin = match &self.admin {
            Some(a) => a.duplicate(),
            None => {
                return Err(ContractError::NotAuthorized);
            },
        };
        events.push(
            FactoryEvent::FactoryTokensRescued {
                rescued_by: admin,
                token: transfer.token,
                recipient: transfer.to,
                amount: transfer.amount,
                timestamp: now,
            },
        );
        Ok(())
    }

    /// Authorizes pushing the factory's admin to a raffle instance; returns
    /// the admin to push.
    pub fn sync_admin(&self, invoker: &Address) -> (r: Result<Address, ContractError>)
        ensures
            r is Ok <==> is_admin(self.model(), invoker@),
            r matches Ok(a) ==> a == admin_of(self.model()),
            r matches Err(e) ==> e == ContractError::NotAuthorized,
    {
        self.require_admin(invoker)
    }

    /// Authorizes pausing a raffle instance.
    pub fn pause_instance(&self, invoker: &Address) -> (r: Result<(), ContractError>)
        ensures
            r is Ok <==> is_admin(self.model(), invoker@),
            r matches Err(e) ==> e == ContractError::NotAuthorized,
    {
        self.require_admin(invoker)?;
        Ok(())
    }

    /// Authorizes unpausing a raffle instance.
    pub fn unpause_instance(&self, invoker: &Address) -> (r: Result<(), ContractError>)
        ensures
            r is Ok <==> is_admin(self.model(), invoker@),
            r matches Err(e) ==> e == ContractError::NotAuthorized,
    {
        self.require_admin(invoker)?;
        Ok(())
    }

    /// Retires raffle `raffle_id`: its stable id is tombstoned for good and
    /// the live count goes down. Returns the raffle's address, whose storage
    /// the host then wipes.
    pub fn clean_old_raffle(
        &mut self,
        events: &mut Vec<FactoryEvent>,
        now: u64,
        invoker: &Address,
        raffle_id: u32,
    ) -> (r: Result<Address, ContractError>)
        ensures
            !is_admin(old(self).model(), invoker@) ==> r == Err::<Address, ContractError>(
                ContractError::NotAuthorized,
            ),
            is_admin(old(self).model(), invoker@) && !old(self).model().raffle_by_id.contains_key(
                raffle_id,
            ) ==> r == Err::<Address, ContractError>(ContractError::InvalidRaffleId),
            r is Err ==> final(self).model() == old(self).model() && final(events)@ == old(events)@,
            r is Ok <==> is_admin(old(self).model(), invoker@) && old(self).model().raffle_by_id.contains_key(raffle_id),
            r matches Ok(a) ==> a == old(self).model().raffle_by_id[raffle_id] && final(self).model()
                == cleaned(old(self).model(), raffle_id) && final(events)@ == old(events)@.push(
                FactoryEvent::RaffleCleanedUp {
                    raffle_address: a,
                    cleaned_by: admin_of(old(self).model()),
                    finish_time: 0,
                    cleaned_at: now,
                },
            ),
    {
        let admin = self.require_admin(invoker)?;
        if !self.raffle_by_id.contains_key(&raffle_id) {
            return Err(ContractError::InvalidRaffleId);
        }
        let raffle_address = self.raffle_by_id.remove(&raffle_id).unwrap();
        self.raffle_count = self.raffle_count.saturating_sub(1);
        events.push(
            FactoryEvent::RaffleCleanedUp {
                raffle_address: raffle_address.duplicate(),
                cleaned_by: admin,
                finish_time: 0,
                cleaned_at: now,
            },
        );
        Ok(raffle_address)
    }

    /// Grants or revokes `creator`'s verified badge.
    pub fn set_verified(
        &mut self,
        events: &mut Vec<FactoryEvent>,
        now: u64,
        invoker: &Address,
        creator: Address,
        verified: bool,
    ) -> (r: Result<(), ContractError>)
        ensures
            r is Ok <==> is_admin(old(self).model(), invoker@),
            r matches Err(e) ==> e == ContractError::NotAuthorized && final(self).model() == old(self).model() && final(events)@ == old(events)@,
            r is Ok ==> final(self).model() == (FactoryModel {
                profiles: old(self).model().profiles.insert(
                    creator@,
                    ProfileView { verified: verified, ..profile_of(old(self).model(), creator@) },
                ),
                ..old(self).model()
            }) && final(events)@ == old(events)@.push(
                FactoryEvent::VerifiedStatusSet {
                    creator: creator,
                    verified: verified,
                    set_by: admin_of(old(self).model()),
                    timestamp: now,
                },
            ),
    {
        let admin = self.require_admin(invoker)?;
        let ghost m = self.model();
        let profile = match self.profiles.remove(&creator.strkey) {
            Some(p) => p,
            None => CreatorProfile::empty(),
        };
        self.profiles.insert(creator.strkey.clone(), CreatorProfile { verified, ..profile });
        proof {
            assert(self.model().profiles =~= m.profiles.insert(
                creator@,
                ProfileView { verified: verified, ..profile_of(m, creator@) },
            ));
        }
        events.push(
            FactoryEvent::VerifiedStatusSet { creator, verified, set_by: admin, timestamp: now },
        );
        Ok(())
    }
}

} // verus!
