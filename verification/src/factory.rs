//! The raffle factory's state and its operations.
//!
//! The state is what the factory keeps in contract storage. Every operation
//! takes the address that authorized the call (`invoker`), the ledger time
//! where it matters, and the event stream it publishes to; an operation that
//! fails leaves the state and the event stream as they were, except where
//! stated.
use crate::address::Address;
use crate::strmap::StrMap;
use crate::types::{
    AdminOp, ConfigKey, ContractError, CreatorProfile, FactoryEvent, PartnerStats, PendingOp,
    ProfileView, RecurringRaffleEntry, StateCheckpoint, DEFAULT_MIN_CREATION_DELAY,
    MAX_PROTOCOL_FEE_BP, TIMELOCK_DELAY_SECONDS,
};
use std::collections::HashMap;
use vstd::prelude::*;

verus! {

broadcast use vstd::std_specs::hash::group_hash_axioms;

/// The factory's storage as mathematical values.
pub struct FactoryModel {
    pub self_address: Seq<char>,
    pub initialized: bool,
    pub admin: Option<Address>,
    pub instance_wasm_hash: Option<[u8; 32]>,
    pub protocol_fee_bp: u32,
    pub treasury: Option<Address>,
    pub paused: bool,
    pub creation_paused: bool,
    pub global_emergency_pause: bool,
    pub pending_admin: Option<Address>,
    pub pending_ops: Map<u32, PendingOp>,
    pub op_counter: u32,
    pub raffle_by_id: Map<u32, Address>,
    pub next_raffle_id: u32,
    pub raffle_count: u32,
    pub total_raffles_created: u32,
    pub checkpoints: Map<u32, StateCheckpoint>,
    pub latest_checkpoint_index: u32,
    pub unique_participants: Map<Seq<char>, bool>,
    pub total_unique_participants: u32,
    pub min_creation_delay: u64,
    pub last_creation_time: Map<Seq<char>, u64>,
    pub whitelisted: Map<Seq<char>, bool>,
    pub partner_stats: Map<Seq<char>, PartnerStats>,
    pub partners: Seq<Address>,
    pub total_volume: Map<Seq<char>, i128>,
    pub creator_raffles: Map<Seq<char>, Seq<Address>>,
    pub category_raffles: Map<Seq<char>, Seq<Address>>,
    pub recurring: Map<u32, RecurringRaffleEntry>,
    pub next_recurring_id: u32,
    pub recurring_instances: Map<u32, Seq<Address>>,
    pub approved_oracles: Map<Seq<char>, bool>,
    pub top_by_tickets: Seq<(Address, i128)>,
    pub top_by_prize: Seq<(Address, i128)>,
    pub top_by_volume: Seq<(Address, i128)>,
    pub profiles: Map<Seq<char>, ProfileView>,
}

/// The raffle factory: its storage, and its operations as methods.
pub struct RaffleFactory {
    pub self_address: Address,
    pub initialized: bool,
    pub admin: Option<Address>,
    pub instance_wasm_hash: Option<[u8; 32]>,
    pub protocol_fee_bp: u32,
    pub treasury: Option<Address>,
    pub paused: bool,
    pub creation_paused: bool,
    pub global_emergency_pause: bool,
    pub pending_admin: Option<Address>,
    pub pending_ops: HashMap<u32, PendingOp>,
    pub op_counter: u32,
    pub raffle_by_id: HashMap<u32, Address>,
    pub next_raffle_id: u32,
    pub raffle_count: u32,
    pub total_raffles_created: u32,
    pub checkpoints: HashMap<u32, StateCheckpoint>,
    pub latest_checkpoint_index: u32,
    pub unique_participants: StrMap<bool>,
    pub total_unique_participants: u32,
    pub min_creation_delay: u64,
    pub last_creation_time: StrMap<u64>,
    pub whitelisted: StrMap<bool>,
    pub partner_stats: StrMap<PartnerStats>,
    pub partners: Vec<Address>,
    pub total_volume: StrMap<i128>,
    pub creator_raffles: StrMap<Vec<Address>>,
    pub category_raffles: StrMap<Vec<Address>>,
    pub recurring: HashMap<u32, RecurringRaffleEntry>,
    pub next_recurring_id: u32,
    pub recurring_instances: HashMap<u32, Vec<Address>>,
    pub approved_oracles: StrMap<bool>,
    pub top_by_tickets: Vec<(Address, i128)>,
    pub top_by_prize: Vec<(Address, i128)>,
    pub top_by_volume: Vec<(Address, i128)>,
    pub profiles: StrMap<CreatorProfile>,
}

/// `who` is the factory's admin.
pub open spec fn is_admin(m: FactoryModel, who: Seq<char>) -> bool {
    m.admin matches Some(a) && a@ == who
}

/// The strkey of the all-zero contract address.
pub open spec fn zero_contract() -> Seq<char> {
    "CAAAAAAAAAAAAAAAAAAAAAAAAAAAAAAAAAAAAAAAAAAAAAAAAAAABSC4"@
}

/// `address` may hold a privileged role (admin or treasury): it is neither
/// the all-zero contract address nor the factory itself. Account addresses
/// are always accepted.
pub open spec fn valid_role(m: FactoryModel, address: Seq<char>) -> bool {
    address != zero_contract() && address != m.self_address
}

/// The model's stored admin, as the address value.
pub open spec fn admin_of(m: FactoryModel) -> Address {
    m.admin->Some_0
}

impl RaffleFactory {
    /// The storage as mathematical values.
    pub open spec fn model(&self) -> FactoryModel {
        FactoryModel {
            self_address: self.self_address@,
            initialized: self.initialized,
            admin: self.admin,
            instance_wasm_hash: self.instance_wasm_hash,
            protocol_fee_bp: self.protocol_fee_bp,
            treasury: self.treasury,
            paused: self.paused,
            creation_paused: self.creation_paused,
            global_emergency_pause: self.global_emergency_pause,
            pending_admin: self.pending_admin,
            pending_ops: self.pending_ops@,
            op_counter: self.op_counter,
            raffle_by_id: self.raffle_by_id@,
            next_raffle_id: self.next_raffle_id,
            raffle_count: self.raffle_count,
            total_raffles_created: self.total_raffles_created,
            checkpoints: self.checkpoints@,
            latest_checkpoint_index: self.latest_checkpoint_index,
            unique_participants: self.unique_participants.contents(),
            total_unique_participants: self.total_unique_participants,
            min_creation_delay: self.min_creation_delay,
            last_creation_time: self.last_creation_time.contents(),
            whitelisted: self.whitelisted.contents(),
            partner_stats: self.partner_stats.contents(),
            partners: self.partners@,
            total_volume: self.total_volume.contents(),
            creator_raffles: self.creator_raffles.contents().map_values(|v: Vec<Address>| v@),
            category_raffles: self.category_raffles.contents().map_values(|v: Vec<Address>| v@),
            recurring: self.recurring@,
            next_recurring_id: self.next_recurring_id,
            recurring_instances: self.recurring_instances@.map_values(|v: Vec<Address>| v@),
            approved_oracles: self.approved_oracles.contents(),
            top_by_tickets: self.top_by_tickets@,
            top_by_prize: self.top_by_prize@,
            top_by_volume: self.top_by_volume@,
            profiles: self.profiles.contents().map_values(|p: CreatorProfile| p@),
        }
    }

    /// A factory at `self_address` with empty storage, as deployed and not
    /// yet initialized.
    pub fn new(self_address: Address) -> (f: RaffleFactory)
        ensures
            f.model() == (FactoryModel {
                self_address: self_address@,
                initialized: false,
                admin: None,
                instance_wasm_hash: None,
                protocol_fee_bp: 0,
                treasury: None,
                paused: false,
                creation_paused: false,
                global_emergency_pause: false,
                pending_admin: None,
                pending_ops: Map::empty(),
                op_counter: 0,
                raffle_by_id: Map::empty(),
                next_raffle_id: 0,
                raffle_count: 0,
                total_raffles_created: 0,
                checkpoints: Map::empty(),
                latest_checkpoint_index: 0,
                unique_participants: Map::empty(),
                total_unique_participants: 0,
                min_creation_delay: DEFAULT_MIN_CREATION_DELAY,
                last_creation_time: Map::empty(),
                whitelisted: Map::empty(),
                partner_stats: Map::empty(),
                partners: Seq::empty(),
                total_volume: Map::empty(),
                creator_raffles: Map::empty(),
                category_raffles: Map::empty(),
                recurring: Map::empty(),
                next_recurring_id: 0,
                recurring_instances: Map::empty(),
                approved_oracles: Map::empty(),
                top_by_tickets: Seq::empty(),
                top_by_prize: Seq::empty(),
                top_by_volume: Seq::empty(),
                profiles: Map::empty(),
            }),
    {
        let f = RaffleFactory {
            self_address,
            initialized: false,
            admin: None,
            instance_wasm_hash: None,
            protocol_fee_bp: 0,
            treasury: None,
            paused: false,
            creation_paused: false,
            global_emergency_pause: false,
            pending_admin: None,
            pending_ops: HashMap::new(),
            op_counter: 0,
            raffle_by_id: HashMap::new(),
            next_raffle_id: 0,
            raffle_count: 0,
            total_raffles_created: 0,
            checkpoints: HashMap::new(),
            latest_checkpoint_index: 0,
            unique_participants: StrMap::new(),
            total_unique_participants: 0,
            min_creation_delay: DEFAULT_MIN_CREATION_DELAY,
            last_creation_time: StrMap::new(),
            whitelisted: StrMap::new(),
            partner_stats: StrMap::new(),
            partners: Vec::new(),
            total_volume: StrMap::new(),
            creator_raffles: StrMap::new(),
            category_raffles: StrMap::new(),
            recurring: HashMap::new(),
            next_recurring_id: 0,
            recurring_instances: HashMap::new(),
            approved_oracles: StrMap::new(),
            top_by_tickets: Vec::new(),
            top_by_prize: Vec::new(),
            top_by_volume: Vec::new(),
            profiles: StrMap::new(),
        };
        proof {
            assert(f.model().creator_raffles =~= Map::empty());
            assert(f.model().category_raffles =~= Map::empty());
            assert(f.model().recurring_instances =~= Map::empty());
            assert(f.model().profiles =~= Map::empty());
        }
        f
    }

    /// The admin, if `invoker` is the admin; `NotAuthorized` otherwise.
    pub(crate) fn require_admin(&self, invoker: &Address) -> (r: Result<Address, ContractError>)
        ensures
            match r {
                Ok(a) => self.admin == Some(a) && a@ == invoker@,
                Err(e) => e == ContractError::NotAuthorized && !is_admin(self.model(), invoker@),
            },
    {
        match &self.admin {
            Some(a) => {
                if a.same_as(invoker) {
                    Ok(a.duplicate())
                } else {
                    Err(ContractError::NotAuthorized)
                }
            },
            None => Err(ContractError::NotAuthorized),
        }
    }

    /// Rejects the all-zero contract address and the factory's own address
    /// for a privileged role.
    pub(crate) fn require_valid_role_address(&self, address: &Address) -> (r: Result<
        (),
        ContractError,
    >)
        ensures
            r is Ok <==> valid_role(self.model(), address@),
            r matches Err(e) ==> e == ContractError::InvalidParameters,
    {
        let zero = String::from_str("CAAAAAAAAAAAAAAAAAAAAAAAAAAAAAAAAAAAAAAAAAAAAAAAAAAABSC4");
        if address.strkey == zero {
            return Err(ContractError::InvalidParameters);
        }
        if address.same_as(&self.self_address) {
            return Err(ContractError::InvalidParameters);
        }
        Ok(())
    }
}

/// Why `init_factory` fails, if it does.
pub open spec fn init_error(
    m: FactoryModel,
    protocol_fee_bp: u32,
    admin: Seq<char>,
    treasury: Seq<char>,
) -> Option<ContractError> {
    if m.initialized {
        Some(ContractError::AlreadyInitialized)
    } else if protocol_fee_bp > MAX_PROTOCOL_FEE_BP {
        Some(ContractError::InvalidParameters)
    } else if !valid_role(m, admin) {
        Some(ContractError::InvalidParameters)
    } else if !valid_role(m, treasury) {
        Some(ContractError::InvalidParameters)
    } else {
        None
    }
}

/// The id the next proposal gets: one past the counter, saturating.
pub open spec fn next_op_id(m: FactoryModel) -> u32 {
    if m.op_counter == u32::MAX {
        u32::MAX
    } else {
        (m.op_counter + 1) as u32
    }
}

/// The state after `op` is queued by the admin at time `now`.
pub open spec fn with_proposal(m: FactoryModel, now: u64, op: AdminOp) -> FactoryModel {
    FactoryModel {
        op_counter: next_op_id(m),
        pending_ops: m.pending_ops.insert(
            next_op_id(m),
            PendingOp {
                op,
                effective_timestamp: (now + TIMELOCK_DELAY_SECONDS) as u64,
                proposed_by: admin_of(m),
            },
        ),
        ..m
    }
}

/// Why queued operation `op` cannot take effect, if it cannot: a role
/// address that is not valid, or a fee above the cap.
pub open spec fn op_error(m: FactoryModel, op: AdminOp) -> Option<ContractError> {
    match op {
        AdminOp::SetConfig(_, a) => if !valid_role(m, a@) {
            Some(ContractError::InvalidParameters)
        } else {
            None
        },
        AdminOp::SetProtocolFeeBP(f) => if f > MAX_PROTOCOL_FEE_BP {
            Some(ContractError::InvalidParameters)
        } else {
            None
        },
        _ => None,
    }
}

/// Why executing queued operation `op_id` fails, if it does.
pub open spec fn execute_error(
    m: FactoryModel,
    invoker: Seq<char>,
    now: u64,
    op_id: u32,
) -> Option<ContractError> {
    if !is_admin(m, invoker) {
        Some(ContractError::NotAuthorized)
    } else if !m.pending_ops.contains_key(op_id) {
        Some(ContractError::NoPendingOp)
    } else if now < m.pending_ops[op_id].effective_timestamp {
        Some(ContractError::TimelockNotElapsed)
    } else {
        op_error(m, m.pending_ops[op_id].op)
    }
}

/// The state after `op` takes effect.
pub open spec fn applied(m: FactoryModel, op: AdminOp) -> FactoryModel {
    match op {
        AdminOp::SetConfig(ConfigKey::Treasury, a) => FactoryModel { treasury: Some(a), ..m },
        AdminOp::SetConfig(_, _) => m,
        AdminOp::SetProtocolFeeBP(f) => FactoryModel { protocol_fee_bp: f, ..m },
        AdminOp::UpdateWasmHash(h) => FactoryModel { instance_wasm_hash: Some(h), ..m },
        AdminOp::ApproveOracle(o) => FactoryModel {
            approved_oracles: m.approved_oracles.insert(o@, true),
            ..m
        },
        AdminOp::RemoveOracle(o) => FactoryModel {
            approved_oracles: m.approved_oracles.remove(o@),
            ..m
        },
    }
}

/// The events that executing `op` publishes before the execution record.
pub open spec fn op_events(op: AdminOp, admin: Address, now: u64) -> Seq<FactoryEvent> {
    match op {
        AdminOp::ApproveOracle(o) => seq![
            FactoryEvent::OracleApproved { oracle: o, approved_by: admin, timestamp: now },
        ],
        AdminOp::RemoveOracle(o) => seq![
            FactoryEvent::OracleRemoved { oracle: o, removed_by: admin, timestamp: now },
        ],
        _ => Seq::empty(),
    }
}

impl RaffleFactory {
    /// Initializes the factory: records the admin, the instance code hash,
    /// the protocol fee and the treasury. Allowed once.
    pub fn init_factory(
        &mut self,
        events: &mut Vec<FactoryEvent>,
        now: u64,
        admin: Address,
        wasm_hash: [u8; 32],
        protocol_fee_bp: u32,
        treasury: Address,
    ) -> (r: Result<(), ContractError>)
        ensures
            match init_error(
                old(self).model(),
                protocol_fee_bp,
                admin@,
                treasury@,
            ) {
                Some(e) => r == Err::<(), ContractError>(e) && final(self).model() == old(
                    self,
                ).model() && final(events)@ == old(events)@,
                None => r is Ok && final(self).model() == (FactoryModel {
                    initialized: true,
                    admin: Some(admin),
                    instance_wasm_hash: Some(wasm_hash),
                    protocol_fee_bp: protocol_fee_bp,
                    treasury: Some(treasury),
                    ..old(self).model()
                }) && final(events)@ == old(events)@.push(
                    FactoryEvent::FactoryInitialized {
                        admin: admin,
                        protocol_fee_bp: protocol_fee_bp,
                        treasury: treasury,
                        timestamp: now,
                    },
                ),
            },
    {
        if self.initialized {
            return Err(ContractError::AlreadyInitialized);
        }
        if protocol_fee_bp > MAX_PROTOCOL_FEE_BP {
            return Err(ContractError::InvalidParameters);
        }
        self.require_valid_role_address(&admin)?;
        self.require_valid_role_address(&treasury)?;
        let event = FactoryEvent::FactoryInitialized {
            admin: admin.duplicate(),
            protocol_fee_bp,
            treasury: treasury.duplicate(),
            timestamp: now,
        };
        self.admin = Some(admin);
        self.instance_wasm_hash = Some(wasm_hash);
        self.protocol_fee_bp = protocol_fee_bp;
        self.treasury = Some(treasury);
        self.initialized = true;
        events.push(event);
        Ok(())
    }

    /// Queues `op` under the timelock; the admin is the proposer.
    fn propose(&mut self, events: &mut Vec<FactoryEvent>, now: u64, admin: Address, op: AdminOp) -> (r:
        u32)
        requires
            old(self).admin == Some(admin),
            now + TIMELOCK_DELAY_SECONDS <= u64::MAX,
        ensures
            r == next_op_id(old(self).model()),
            final(self).model() == with_proposal(old(self).model(), now, op),
            final(events)@ == old(events)@.push(
                FactoryEvent::AdminOpProposed {
                    op_id: r,
                    op: op,
                    effective_timestamp: (now + TIMELOCK_DELAY_SECONDS) as u64,
                    proposed_by: admin,
                },
            ),
    {
        let op_id = self.op_counter.saturating_add(1);
        self.op_counter = op_id;
        let effective_timestamp = now + TIMELOCK_DELAY_SECONDS;
        let event = FactoryEvent::AdminOpProposed {
            op_id,
            op: op.duplicate(),
            effective_timestamp,
            proposed_by: admin.duplicate(),
        };
        self.pending_ops.insert(op_id, PendingOp { op, effective_timestamp, proposed_by: admin });
        events.push(event);
        op_id
    }

    /// Proposes, under the timelock, setting the protocol address `key` to
    /// `address`. Returns the operation's id.
    pub fn set_config(
        &mut self,
        events: &mut Vec<FactoryEvent>,
        now: u64,
        invoker: &Address,
        key: ConfigKey,
        address: Address,
    ) -> (r: Result<u32, ContractError>)
        requires
            is_admin(old(self).model(), invoker@) && valid_role(
                old(self).model(),
                address@,
            ) ==> now + TIMELOCK_DELAY_SECONDS <= u64::MAX,
        ensures
            !is_admin(old(self).model(), invoker@) ==> r == Err::<u32, ContractError>(
                ContractError::NotAuthorized,
            ),
            is_admin(old(self).model(), invoker@) && !valid_role(
                old(self).model(),
                address@,
            ) ==> r == Err::<u32, ContractError>(ContractError::InvalidParameters),
            r is Err ==> final(self).model() == old(self).model() && final(events)@ == old(
                events,
            )@,
            r is Ok <==> is_admin(old(self).model(), invoker@) && valid_role(
                old(self).model(),
                address@,
            ),
            r matches Ok(id) ==> id == next_op_id(old(self).model()) && final(self).model()
                == with_proposal(old(self).model(), now, AdminOp::SetConfig(key, address))
                && final(events)@ == old(events)@.push(
                FactoryEvent::AdminOpProposed {
                    op_id: id,
                    op: AdminOp::SetConfig(key, address),
                    effective_timestamp: (now + TIMELOCK_DELAY_SECONDS) as u64,
                    proposed_by: admin_of(old(self).model()),
                },
            ),
    {
        let admin = self.require_admin(invoker)?;
        self.require_valid_role_address(&address)?;
        Ok(self.propose(events, now, admin, AdminOp::SetConfig(key, address)))
    }

    /// Proposes, under the timelock, a new protocol fee. Returns the
    /// operation's id.
    pub fn propose_fee_change(
        &mut self,
        events: &mut Vec<FactoryEvent>,
        now: u64,
        invoker: &Address,
        protocol_fee_bp: u32,
    ) -> (r: Result<u32, ContractError>)
        requires
            is_admin(old(self).model(), invoker@) && protocol_fee_bp <= MAX_PROTOCOL_FEE_BP ==> now
                + TIMELOCK_DELAY_SECONDS <= u64::MAX,
        ensures
            !is_admin(old(self).model(), invoker@) ==> r == Err::<u32, ContractError>(
                ContractError::NotAuthorized,
            ),
            is_admin(old(self).model(), invoker@) && protocol_fee_bp > MAX_PROTOCOL_FEE_BP ==> r
                == Err::<u32, ContractError>(ContractError::InvalidParameters),
            r is Err ==> final(self).model() == old(self).model() && final(events)@ == old(
                events,
            )@,
            r is Ok <==> is_admin(old(self).model(), invoker@) && protocol_fee_bp
                <= MAX_PROTOCOL_FEE_BP,
            r matches Ok(id) ==> id == next_op_id(old(self).model()) && final(self).model()
                == with_proposal(old(self).model(), now, AdminOp::SetProtocolFeeBP(protocol_fee_bp))
                && final(events)@ == old(events)@.push(
                FactoryEvent::AdminOpProposed {
                    op_id: id,
                    op: AdminOp::SetProtocolFeeBP(protocol_fee_bp),
                    effective_timestamp: (now + TIMELOCK_DELAY_SECONDS) as u64,
                    proposed_by: admin_of(old(self).model()),
                },
            ),
    {
        let admin = self.require_admin(invoker)?;
        if protocol_fee_bp > MAX_PROTOCOL_FEE_BP {
            return Err(ContractError::InvalidParameters);
        }
        Ok(self.propose(events, now, admin, AdminOp::SetProtocolFeeBP(protocol_fee_bp)))
    }

    /// Proposes, under the timelock, a new code hash for raffle instances.
    /// Returns the operation's id.
    pub fn propose_wasm_upgrade(
        &mut self,
        events: &mut Vec<FactoryEvent>,
        now: u64,
        invoker: &Address,
        new_wasm_hash: [u8; 32],
    ) -> (r: Result<u32, ContractError>)
        requires
            is_admin(old(self).model(), invoker@) ==> now + TIMELOCK_DELAY_SECONDS <= u64::MAX,
        ensures
            r is Ok <==> is_admin(old(self).model(), invoker@),
            r matches Err(e) ==> e == ContractError::NotAuthorized && final(self).model() == old(
                self,
            ).model() && final(events)@ == old(events)@,
            r matches Ok(id) ==> id == next_op_id(old(self).model()) && final(self).model()
                == with_proposal(old(self).model(), now, AdminOp::UpdateWasmHash(new_wasm_hash))
                && final(events)@ == old(events)@.push(
                FactoryEvent::AdminOpProposed {
                    op_id: id,
                    op: AdminOp::UpdateWasmHash(new_wasm_hash),
                    effective_timestamp: (now + TIMELOCK_DELAY_SECONDS) as u64,
                    proposed_by: admin_of(old(self).model()),
                },
            ),
    {
        let admin = self.require_admin(invoker)?;
        Ok(self.propose(events, now, admin, AdminOp::UpdateWasmHash(new_wasm_hash)))
    }

    /// Applies queued operation `op_id` once its timelock has elapsed, and
    /// removes it from the queue.
    pub fn execute_config_change(
        &mut self,
        events: &mut Vec<FactoryEvent>,
        now: u64,
        invoker: &Address,
        op_id: u32,
    ) -> (r: Result<(), ContractError>)
        ensures
            match execute_error(old(self).model(), invoker@, now, op_id) {
                Some(e) => r == Err::<(), ContractError>(e) && final(self).model() == old(
                    self,
                ).model() && final(events)@ == old(events)@,
                None => r is Ok && final(self).model() == (FactoryModel {
                    pending_ops: old(self).model().pending_ops.remove(op_id),
                    ..applied(old(self).model(), old(self).model().pending_ops[op_id].op)
                }) && final(events)@ == old(events)@ + op_events(
                    old(self).model().pending_ops[op_id].op,
                    admin_of(old(self).model()),
                    now,
                ).push(
                    FactoryEvent::AdminOpExecuted {
                        op_id: op_id,
                        op: old(self).model().pending_ops[op_id].op,
                        executed_by: admin_of(old(self).model()),
                        executed_at: now,
                    },
                ),
            },
    {
        let admin = self.require_admin(invoker)?;
        let pending = match self.pending_ops.get(&op_id) {
            Some(p) => p.duplicate(),
            None => {
                return Err(ContractError::NoPendingOp);
            },
        };
        if now < pending.effective_timestamp {
            return Err(ContractError::TimelockNotElapsed);
        }
        let ghost events_before = events@;
        match &pending.op {
            AdminOp::SetConfig(key, address) => {
                self.require_valid_role_address(address)?;
                match key {
                    ConfigKey::Treasury => {
                        self.treasury = Some(address.duplicate());
                    },
                    ConfigKey::Oracle => {},
                    ConfigKey::SwapRouter => {},
                }
            },
            AdminOp::SetProtocolFeeBP(protocol_fee_bp) => {
                if *protocol_fee_bp > MAX_PROTOCOL_FEE_BP {
                    return Err(ContractError::InvalidParameters);
                }
                self.protocol_fee_bp = *protocol_fee_bp;
            },
            AdminOp::UpdateWasmHash(new_hash) => {
                self.instance_wasm_hash = Some(*new_hash);
            },
            AdminOp::ApproveOracle(oracle) => {
                self.approved_oracles.insert(oracle.strkey.clone(), true);
                events.push(
                    FactoryEvent::OracleApproved {
                        oracle: oracle.duplicate(),
                        approved_by: admin.duplicate(),
                        timestamp: now,
                    },
                );
            },
            AdminOp::RemoveOracle(oracle) => {
                self.approved_oracles.remove(&oracle.strkey);
                events.push(
                    FactoryEvent::OracleRemoved {
                        oracle: oracle.duplicate(),
                        removed_by: admin.duplicate(),
                        timestamp: now,
                    },
                );
            },
        }
        proof {
            assert(events@ == events_before + op_events(pending.op, admin, now));
        }
        self.pending_ops.remove(&op_id);
        events.push(
            FactoryEvent::AdminOpExecuted { op_id, op: pending.op, executed_by: admin, executed_at: now },
        );
        Ok(())
    }

    /// Discards queued operation `op_id` without applying it.
    pub fn cancel_config_change(
        &mut self,
        events: &mut Vec<FactoryEvent>,
        now: u64,
        invoker: &Address,
        op_id: u32,
    ) -> (r: Result<(), ContractError>)
        ensures
            !is_admin(old(self).model(), invoker@) ==> r == Err::<(), ContractError>(
                ContractError::NotAuthorized,
            ),
            is_admin(old(self).model(), invoker@) && !old(self).model().pending_ops.contains_key(
                op_id,
            ) ==> r == Err::<(), ContractError>(ContractError::NoPendingOp),
            r is Ok <==> is_admin(old(self).model(), invoker@) && old(
                self,
            ).model().pending_ops.contains_key(op_id),
            r is Err ==> final(self).model() == old(self).model() && final(events)@ == old(
                events,
            )@,
            r is Ok ==> final(self).model() == (FactoryModel {
                pending_ops: old(self).model().pending_ops.remove(op_id),
                ..old(self).model()
            }) && final(events)@ == old(events)@.push(
                FactoryEvent::AdminOpCancelled {
                    op_id: op_id,
                    cancelled_by: admin_of(old(self).model()),
                    cancelled_at: now,
                },
            ),
    {
        let admin = self.require_admin(invoker)?;
        if !self.pending_ops.contains_key(&op_id) {
            return Err(ContractError::NoPendingOp);
        }
        self.pending_ops.remove(&op_id);
        events.push(FactoryEvent::AdminOpCancelled { op_id, cancelled_by: admin, cancelled_at: now });
        Ok(())
    }

    /// The queued operation `op_id`, if it is still queued.
    pub fn get_pending_op(&self, op_id: u32) -> (r: Option<PendingOp>)
        ensures
            match r {
                Some(p) => self.model().pending_ops.contains_key(op_id) && p
                    == self.model().pending_ops[op_id],
                None => !self.model().pending_ops.contains_key(op_id),
            },
    {
        match self.pending_ops.get(&op_id) {
            Some(p) => Some(p.duplicate()),
            None => None,
        }
    }

    /// The id of the most recent proposal (0 before any).
    pub fn get_op_counter(&self) -> (r: u32)
        ensures
            r == self.model().op_counter,
    {
        self.op_counter
    }
}

/// The list stored under `k`, or the empty list.
pub open spec fn list_at<K>(m: Map<K, Seq<Address>>, k: K) -> Seq<Address> {
    if m.contains_key(k) {
        m[k]
    } else {
        Seq::empty()
    }
}

/// One more than `x`, saturating at `u32::MAX`.
pub open spec fn sat_inc(x: u32) -> u32 {
    if x == u32::MAX {
        u32::MAX
    } else {
        (x + 1) as u32
    }
}

/// Appends `a` to the list stored under `key`.
pub(crate) fn append_to_list(m: &mut StrMap<Vec<Address>>, key: String, a: Address)
    ensures
        final(m).contents().map_values(|v: Vec<Address>| v@) == old(m).contents().map_values(
            |v: Vec<Address>| v@,
        ).insert(key@, list_at(old(m).contents().map_values(|v: Vec<Address>| v@), key@).push(a)),
{
    let ghost before = old(m).contents();
    let mut list = match m.remove(&key) {
        Some(v) => v,
        None => Vec::new(),
    };
    list.push(a);
    m.insert(key, list);
    proof {
        let f = |v: Vec<Address>| v@;
        assert(m.contents().map_values(f) =~= before.map_values(f).insert(
            key@,
            list_at(before.map_values(f), key@).push(a),
        ));
    }
}

/// Appends `a` to the list stored under `key`.
pub(crate) fn append_to_id_list(m: &mut HashMap<u32, Vec<Address>>, key: u32, a: Address)
    ensures
        final(m)@.map_values(|v: Vec<Address>| v@) == old(m)@.map_values(|v: Vec<Address>| v@).insert(
            key,
            list_at(old(m)@.map_values(|v: Vec<Address>| v@), key).push(a),
        ),
{
    let ghost before = old(m)@;
    let mut list = match m.remove(&key) {
        Some(v) => v,
        None => Vec::new(),
    };
    list.push(a);
    m.insert(key, list);
    proof {
        let f = |v: Vec<Address>| v@;
        assert(m@.map_values(f) =~= before.map_values(f).insert(
            key,
            list_at(before.map_values(f), key).push(a),
        ));
    }
}

} // verus!
