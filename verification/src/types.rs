//! The factory's constants, records, errors and events.
use crate::address::{duplicate_opt, duplicate_string, Address};
use vstd::prelude::*;

verus! {

/// A checkpoint is taken every this many raffles.
pub const CHECKPOINT_INTERVAL: u32 = 1000;

/// The highest protocol fee, in basis points (20 %).
pub const MAX_PROTOCOL_FEE_BP: u32 = 2000;

/// Delay between proposing and executing an administrative change (48 h).
pub const TIMELOCK_DELAY_SECONDS: u64 = 172_800;

/// Shortest interval between rounds of a recurring raffle (1 h).
pub const MIN_RECURRING_INTERVAL_SECONDS: u64 = 3600;

/// Longest interval between rounds of a recurring raffle (365 days).
pub const MAX_RECURRING_INTERVAL_SECONDS: u64 = 31_536_000;

/// Page size used when a request asks for 0 items.
pub const DEFAULT_PAGE_LIMIT: u32 = 100;

/// Largest page size.
pub const MAX_PAGE_LIMIT: u32 = 200;

/// Longest creator display name, in bytes.
pub const MAX_DESCRIPTION_LENGTH: u32 = 1000;

/// Cooldown between creations of a non-whitelisted creator until the admin
/// sets another.
pub const DEFAULT_MIN_CREATION_DELAY: u64 = 300;

/// The page size a request for `limit` items gets: `limit` clamped to
/// `[1, MAX_PAGE_LIMIT]`, with 0 meaning `DEFAULT_PAGE_LIMIT`.
pub open spec fn spec_effective_limit(limit: u32) -> u32 {
    if limit == 0 {
        DEFAULT_PAGE_LIMIT
    } else if limit > MAX_PAGE_LIMIT {
        MAX_PAGE_LIMIT
    } else {
        limit
    }
}

/// The page size a request for `limit` items gets.
pub fn effective_limit(limit: u32) -> (r: u32)
    ensures
        r == spec_effective_limit(limit),
        1 <= r <= MAX_PAGE_LIMIT,
{
    if limit == 0 {
        DEFAULT_PAGE_LIMIT
    } else if limit > MAX_PAGE_LIMIT {
        MAX_PAGE_LIMIT
    } else {
        limit
    }
}

/// Errors returned by the factory.
#[derive(Clone, Copy, Debug, PartialEq, Eq, Structural)]
pub enum ContractError {
    AlreadyInitialized,
    NotAuthorized,
    ContractPaused,
    InvalidParameters,
    RaffleNotFound,
    AdminTransferPending,
    NoPendingTransfer,
    RateLimitExceeded,
    NoPendingOp,
    TimelockNotElapsed,
    InvalidRaffleId,
    RaffleNotEligible,
    ArithmeticOverflow,
    TreasuryNotSet,
    RecurringNotFound,
    IntervalNotElapsed,
    MaxRoundsReached,
    RecurringInactive,
    CreationPaused,
}

impl ContractError {
    /// The numeric code clients match on.
    pub fn code(&self) -> (c: u32)
        ensures
            c == match *self {
                ContractError::AlreadyInitialized => 1u32,
                ContractError::NotAuthorized => 2,
                ContractError::ContractPaused => 3,
                ContractError::InvalidParameters => 4,
                ContractError::RaffleNotFound => 5,
                ContractError::AdminTransferPending => 11,
                ContractError::NoPendingTransfer => 12,
                ContractError::RateLimitExceeded => 13,
                ContractError::NoPendingOp => 14,
                ContractError::TimelockNotElapsed => 15,
                ContractError::InvalidRaffleId => 16,
                ContractError::RaffleNotEligible => 17,
                ContractError::ArithmeticOverflow => 18,
                ContractError::TreasuryNotSet => 19,
                ContractError::RecurringNotFound => 20,
                ContractError::IntervalNotElapsed => 21,
                ContractError::MaxRoundsReached => 22,
                ContractError::RecurringInactive => 23,
                ContractError::CreationPaused => 24,
            },
    {
        match self {
            ContractError::AlreadyInitialized => 1,
            ContractError::NotAuthorized => 2,
            ContractError::ContractPaused => 3,
            ContractError::InvalidParameters => 4,
            ContractError::RaffleNotFound => 5,
            ContractError::AdminTransferPending => 11,
            ContractError::NoPendingTransfer => 12,
            ContractError::RateLimitExceeded => 13,
            ContractError::NoPendingOp => 14,
            ContractError::TimelockNotElapsed => 15,
            ContractError::InvalidRaffleId => 16,
            ContractError::RaffleNotEligible => 17,
            ContractError::ArithmeticOverflow => 18,
            ContractError::TreasuryNotSet => 19,
            ContractError::RecurringNotFound => 20,
            ContractError::IntervalNotElapsed => 21,
            ContractError::MaxRoundsReached => 22,
            ContractError::RecurringInactive => 23,
            ContractError::CreationPaused => 24,
        }
    }
}

/// Which protocol address a timelocked change targets.
#[derive(Clone, Copy, Debug, PartialEq, Eq, Structural)]
pub enum ConfigKey {
    Treasury,
    Oracle,
    SwapRouter,
}

/// A timelocked administrative operation.
pub enum AdminOp {
    SetConfig(ConfigKey, Address),
    SetProtocolFeeBP(u32),
    UpdateWasmHash([u8; 32]),
    ApproveOracle(Address),
    RemoveOracle(Address),
}

impl AdminOp {
    /// A copy of this operation.
    pub fn duplicate(&self) -> (r: AdminOp)
        ensures
            r == *self,
    {
        match self {
            AdminOp::SetConfig(k, a) => AdminOp::SetConfig(*k, a.duplicate()),
            AdminOp::SetProtocolFeeBP(f) => AdminOp::SetProtocolFeeBP(*f),
            AdminOp::UpdateWasmHash(h) => AdminOp::UpdateWasmHash(*h),
            AdminOp::ApproveOracle(a) => AdminOp::ApproveOracle(a.duplicate()),
            AdminOp::RemoveOracle(a) => AdminOp::RemoveOracle(a.duplicate()),
        }
    }
}

/// A queued administrative operation and when it becomes executable.
pub struct PendingOp {
    pub op: AdminOp,
    pub effective_timestamp: u64,
    pub proposed_by: Address,
}

impl PendingOp {
    /// A copy of this record.
    pub fn duplicate(&self) -> (r: PendingOp)
        ensures
            r == *self,
    {
        PendingOp {
            op: self.op.duplicate(),
            effective_timestamp: self.effective_timestamp,
            proposed_by: self.proposed_by.duplicate(),
        }
    }
}

/// A creator's display name, verified badge and track record.
pub struct CreatorProfile {
    pub name: String,
    pub verified: bool,
    pub raffles_created: u32,
}

/// A creator profile as mathematical values.
pub struct ProfileView {
    pub name: Seq<char>,
    pub verified: bool,
    pub raffles_created: u32,
}

/// The profile of a creator who has none yet: no name, no badge, no raffles.
pub open spec fn empty_profile() -> ProfileView {
    ProfileView { name: Seq::empty(), verified: false, raffles_created: 0 }
}

impl View for CreatorProfile {
    type V = ProfileView;

    open spec fn view(&self) -> ProfileView {
        ProfileView { name: self.name@, verified: self.verified, raffles_created: self.raffles_created }
    }
}

impl CreatorProfile {
    /// The profile of a creator who has none yet.
    pub fn empty() -> (p: CreatorProfile)
        ensures
            p@ == empty_profile(),
    {
        CreatorProfile { name: String::new(), verified: false, raffles_created: 0 }
    }

    /// A copy of this profile.
    pub fn duplicate(&self) -> (r: CreatorProfile)
        ensures
            r == *self,
            r@ == self@,
    {
        CreatorProfile {
            name: duplicate_string(&self.name),
            verified: self.verified,
            raffles_created: self.raffles_created,
        }
    }
}

/// A snapshot taken every `CHECKPOINT_INTERVAL` raffles: its 1-based index,
/// the raffle count and ledger time it was taken at, and the SHA-256 of
/// count, ledger sequence and time.
#[derive(Clone, Copy)]
pub struct StateCheckpoint {
    pub index: u32,
    pub raffle_count: u32,
    pub ledger_timestamp: u64,
    pub aggregate_hash: [u8; 32],
}

/// The parts of a raffle configuration the factory reads or sets; the rest
/// of the configuration goes to the deployed instance unchanged.
pub struct RaffleConfig {
    pub description: String,
    pub category: Option<String>,
    pub protocol_fee_bp: u32,
    pub treasury_address: Option<Address>,
}

impl RaffleConfig {
    /// A copy of this configuration.
    pub fn duplicate(&self) -> (r: RaffleConfig)
        ensures
            r == *self,
    {
        RaffleConfig {
            description: duplicate_string(&self.description),
            category: match &self.category {
                Some(c) => Some(duplicate_string(c)),
                None => None,
            },
            protocol_fee_bp: self.protocol_fee_bp,
            treasury_address: duplicate_opt(&self.treasury_address),
        }
    }
}

/// The schedule of a recurring raffle.
pub struct RecurringRaffleConfig {
    pub base_config: RaffleConfig,
    pub interval_seconds: u64,
    pub max_rounds: u32,
    pub auto_fund: bool,
}

impl RecurringRaffleConfig {
    /// A copy of this schedule.
    pub fn duplicate(&self) -> (r: RecurringRaffleConfig)
        ensures
            r == *self,
    {
        RecurringRaffleConfig {
            base_config: self.base_config.duplicate(),
            interval_seconds: self.interval_seconds,
            max_rounds: self.max_rounds,
            auto_fund: self.auto_fund,
        }
    }
}

/// The state of a recurring raffle.
pub struct RecurringRaffleEntry {
    pub creator: Address,
    pub config: RecurringRaffleConfig,
    pub next_due: u64,
    pub current_round: u32,
    pub active: bool,
    pub last_raffle_address: Option<Address>,
}

impl RecurringRaffleEntry {
    /// A copy of this entry.
    pub fn duplicate(&self) -> (r: RecurringRaffleEntry)
        ensures
            r == *self,
    {
        RecurringRaffleEntry {
            creator: self.creator.duplicate(),
            config: self.config.duplicate(),
            next_due: self.next_due,
            current_round: self.current_round,
            active: self.active,
            last_raffle_address: duplicate_opt(&self.last_raffle_address),
        }
    }
}

/// A page request: skip `offset` positions, return at most `limit` items.
#[derive(Clone, Copy, Debug, PartialEq, Eq, Structural)]
pub struct PaginationParams {
    pub limit: u32,
    pub offset: u32,
}

/// A page of raffle addresses.
pub struct PageResultRaffles {
    pub items: Vec<Address>,
    pub total: u32,
    pub has_more: bool,
}

/// A read-only snapshot of key factory metrics.
#[derive(Clone, Copy, Debug, PartialEq, Eq, Structural)]
pub struct ProtocolStats {
    pub total_raffles_created: u32,
    pub protocol_fee_bp: u32,
    pub paused: bool,
    pub total_unique_participants: u32,
}

/// Per-partner aggregate statistics.
#[derive(Clone, Copy, Debug, PartialEq, Eq, Structural)]
pub struct PartnerStats {
    pub total_raffles: u32,
    pub total_volume: i128,
    pub total_fees_generated: i128,
    pub first_raffle_at: u64,
    pub latest_raffle_at: u64,
}

impl PartnerStats {
    /// Stats of a partner with no raffles yet.
    pub open spec fn zero() -> PartnerStats {
        PartnerStats {
            total_raffles: 0,
            total_volume: 0,
            total_fees_generated: 0,
            first_raffle_at: 0,
            latest_raffle_at: 0,
        }
    }
}

/// Which leaderboard to read.
#[derive(Clone, Copy, Debug, PartialEq, Eq, Structural)]
pub enum LeaderboardMetric {
    TicketsSold,
    PrizeAmount,
    TotalVolume,
}

/// Published when the factory is paused.
pub struct ContractPaused {
    pub paused_by: Address,
    pub timestamp: u64,
}

/// Published when the factory is unpaused.
pub struct ContractUnpaused {
    pub unpaused_by: Address,
    pub timestamp: u64,
}

/// Events the factory publishes.
pub enum FactoryEvent {
    FactoryInitialized { admin: Address, protocol_fee_bp: u32, treasury: Address, timestamp: u64 },
    AdminOpProposed { op_id: u32, op: AdminOp, effective_timestamp: u64, proposed_by: Address },
    AdminOpExecuted { op_id: u32, op: AdminOp, executed_by: Address, executed_at: u64 },
    AdminOpCancelled { op_id: u32, cancelled_by: Address, cancelled_at: u64 },
    OracleApproved { oracle: Address, approved_by: Address, timestamp: u64 },
    OracleRemoved { oracle: Address, removed_by: Address, timestamp: u64 },
    CreationRateLimited { creator: Address, unlock_timestamp: u64, timestamp: u64 },
    CheckpointCreated {
        index: u32,
        raffle_count: u32,
        ledger_timestamp: u64,
        aggregate_hash: [u8; 32],
    },
    RecurringRaffleCreated {
        recurring_id: u32,
        creator: Address,
        interval_seconds: u64,
        max_rounds: u32,
        auto_fund: bool,
        next_due: u64,
        timestamp: u64,
    },
    RecurringRoundTriggered {
        recurring_id: u32,
        round: u32,
        raffle_address: Address,
        next_due: u64,
        timestamp: u64,
    },
    RecurringRaffleCancelled {
        recurring_id: u32,
        cancelled_by: Address,
        rounds_completed: u32,
        timestamp: u64,
    },
    Paused(ContractPaused),
    Unpaused(ContractUnpaused),
    AdminTransferProposed { current_admin: Address, proposed_admin: Address, timestamp: u64 },
    AdminTransferAccepted { old_admin: Address, new_admin: Address, timestamp: u64 },
    CreationPaused { paused_by: Address, timestamp: u64 },
    CreationUnpaused { unpaused_by: Address, timestamp: u64 },
    FactoryUpgraded { admin: Address, new_wasm_hash: [u8; 32], timestamp: u64 },
    FactoryTokensRescued {
        rescued_by: Address,
        token: Address,
        recipient: Address,
        amount: i128,
        timestamp: u64,
    },
    GlobalEmergencyPaused { paused_by: Address, reason: String, timestamp: u64 },
    GlobalEmergencyUnpaused { unpaused_by: Address, timestamp: u64 },
    RaffleCleanedUp { raffle_address: Address, cleaned_by: Address, finish_time: u64, cleaned_at: u64 },
    ProfileNameSet { creator: Address, name: String, timestamp: u64 },
    VerifiedStatusSet { creator: Address, verified: bool, set_by: Address, timestamp: u64 },
}

} // verus!
