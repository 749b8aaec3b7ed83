//! Creating raffles.
//!
//! Deploying an instance is the host's work, so creation runs in two steps:
//! the factory first checks a request and says what to deploy
//! (`create_raffle`, `trigger_next_round`); once the instance is deployed and
//! initialized, the factory registers its address (`register_raffle`,
//! `register_round_raffle`).
use crate::address::{duplicate_list, Address};
use crate::factory::{
    admin_of, append_to_id_list, append_to_list, is_admin, list_at, sat_inc, FactoryModel,
    RaffleFactory,
};
use crate::hashing::{checkpoint_digest, checkpoint_input, sha256_of};
use crate::types::{
    empty_profile, ContractError, CreatorProfile, FactoryEvent, PartnerStats, ProfileView,
    RaffleConfig, RecurringRaffleConfig, RecurringRaffleEntry, StateCheckpoint,
    CHECKPOINT_INTERVAL, MAX_RECURRING_INTERVAL_SECONDS, MIN_RECURRING_INTERVAL_SECONDS,
};
use vstd::prelude::*;

verus! {

broadcast use vstd::std_specs::hash::group_hash_axioms;

/// What deploying and initializing a new raffle instance takes: the
/// factory's admin, the instance code hash, the creator, the nonce of the
/// deployment salt (the stable id the raffle will get, so that its address
/// can be predicted from creator and nonce) and the configuration the
/// instance is initialized with.
pub struct RaffleDeployment {
    pub admin: Address,
    pub wasm_hash: [u8; 32],
    pub creator: Address,
    pub nonce: u64,
    pub config: RaffleConfig,
}

/// `who` is a whitelisted partner.
pub open spec fn is_whitelisted(m: FactoryModel, who: Seq<char>) -> bool {
    m.whitelisted.contains_key(who) && m.whitelisted[who]
}

/// When `who` last created a raffle while rate-limited (0 if never).
pub open spec fn last_creation(m: FactoryModel, who: Seq<char>) -> u64 {
    if m.last_creation_time.contains_key(who) {
        m.last_creation_time[who]
    } else {
        0
    }
}

/// The earliest time a rate-limited `who` may create again.
pub open spec fn unlock_time(m: FactoryModel, who: Seq<char>) -> int {
    last_creation(m, who) + m.min_creation_delay
}

/// Why `create_raffle` stops before the rate limiter, if it does.
pub open spec fn create_gate_error(m: FactoryModel, invoker: Seq<char>, creator: Seq<char>) -> Option<
    ContractError,
> {
    if invoker != creator {
        Some(ContractError::NotAuthorized)
    } else if m.paused {
        Some(ContractError::ContractPaused)
    } else if m.creation_paused {
        Some(ContractError::CreationPaused)
    } else {
        None
    }
}

/// Why the factory cannot deploy for an authorized request, if it cannot:
/// no treasury, no admin, or no instance code.
pub open spec fn deploy_error(m: FactoryModel) -> Option<ContractError> {
    if m.treasury is None {
        Some(ContractError::TreasuryNotSet)
    } else if m.admin is None {
        Some(ContractError::NotAuthorized)
    } else if m.instance_wasm_hash is None {
        Some(ContractError::InvalidParameters)
    } else {
        None
    }
}

/// Why `create_raffle` fails, if it does.
pub open spec fn create_error(m: FactoryModel, invoker: Seq<char>, creator: Seq<char>, now: u64) -> Option<
    ContractError,
> {
    match create_gate_error(m, invoker, creator) {
        Some(e) => Some(e),
        None => if !is_whitelisted(m, creator) && now < unlock_time(m, creator) {
            Some(ContractError::RateLimitExceeded)
        } else {
            deploy_error(m)
        },
    }
}

/// The deployment `create_raffle` asks for: the caller's configuration with
/// the factory's protocol fee and treasury in place of the caller's.
pub open spec fn deployment_for(m: FactoryModel, creator: Address, config: RaffleConfig) -> RaffleDeployment {
    RaffleDeployment {
        admin: admin_of(m),
        wasm_hash: m.instance_wasm_hash->Some_0,
        creator,
        nonce: m.next_raffle_id as u64,
        config: RaffleConfig {
            protocol_fee_bp: m.protocol_fee_bp,
            treasury_address: m.treasury,
            ..config
        },
    }
}

/// The state after a rate-limited creator's creation at `now` is recorded.
pub open spec fn after_rate_limit(m: FactoryModel, creator: Seq<char>, now: u64) -> FactoryModel {
    if is_whitelisted(m, creator) {
        m
    } else {
        FactoryModel { last_creation_time: m.last_creation_time.insert(creator, now), ..m }
    }
}

/// The next registration completes a multiple of `CHECKPOINT_INTERVAL`
/// raffles.
pub open spec fn checkpoint_due(m: FactoryModel) -> bool {
    (m.total_raffles_created + 1) % (CHECKPOINT_INTERVAL as int) == 0
}

/// The checkpoint the next registration takes, when one is due.
pub open spec fn new_checkpoint(m: FactoryModel, now: u64, ledger_sequence: u32) -> StateCheckpoint {
    let count = (m.total_raffles_created + 1) as u32;
    StateCheckpoint {
        index: count / CHECKPOINT_INTERVAL,
        raffle_count: count,
        ledger_timestamp: now,
        aggregate_hash: sha256_of(checkpoint_input(count, ledger_sequence, now)),
    }
}

/// The state after `raffle`, created by `creator`, is registered: it gets the
/// next stable id, joins its creator's list and its category's list, the
/// counts go up, and every `CHECKPOINT_INTERVAL` raffles a checkpoint is
/// taken.
pub open spec fn registered(
    m: FactoryModel,
    creator: Address,
    category: Option<String>,
    raffle: Address,
    now: u64,
    ledger_sequence: u32,
) -> FactoryModel {
    let base = FactoryModel {
        raffle_by_id: m.raffle_by_id.insert(m.next_raffle_id, raffle),
        next_raffle_id: sat_inc(m.next_raffle_id),
        creator_raffles: m.creator_raffles.insert(
            creator@,
            list_at(m.creator_raffles, creator@).push(raffle),
        ),
        category_raffles: match category {
            Some(c) => m.category_raffles.insert(c@, list_at(m.category_raffles, c@).push(raffle)),
            None => m.category_raffles,
        },
        raffle_count: sat_inc(m.raffle_count),
        total_raffles_created: (m.total_raffles_created + 1) as u32,
        ..m
    };
    if checkpoint_due(m) {
        let c = new_checkpoint(m, now, ledger_sequence);
        FactoryModel {
            checkpoints: m.checkpoints.insert(c.index, c),
            latest_checkpoint_index: c.index,
            ..base
        }
    } else {
        base
    }
}

/// The events a registration publishes: the checkpoint, when one is taken.
pub open spec fn checkpoint_events(m: FactoryModel, now: u64, ledger_sequence: u32) -> Seq<
    FactoryEvent,
> {
    if checkpoint_due(m) {
        let c = new_checkpoint(m, now, ledger_sequence);
        seq![
            FactoryEvent::CheckpointCreated {
                index: c.index,
                raffle_count: c.raffle_count,
                ledger_timestamp: c.ledger_timestamp,
                aggregate_hash: c.aggregate_hash,
            },
        ]
    } else {
        Seq::empty()
    }
}

/// A partner's stats (zero if none are stored).
pub open spec fn stats_of(m: FactoryModel, who: Seq<char>) -> PartnerStats {
    if m.partner_stats.contains_key(who) {
        m.partner_stats[who]
    } else {
        PartnerStats::zero()
    }
}

/// Stats after one more raffle at `now`.
pub open spec fn credited_stats(s: PartnerStats, now: u64) -> PartnerStats {
    PartnerStats {
        total_raffles: sat_inc(s.total_raffles),
        first_raffle_at: if s.total_raffles == 0 {
            now
        } else {
            s.first_raffle_at
        },
        latest_raffle_at: now,
        ..s
    }
}

/// A creator's profile (the empty profile if none is stored).
pub open spec fn profile_of(m: FactoryModel, who: Seq<char>) -> ProfileView {
    if m.profiles.contains_key(who) {
        m.profiles[who]
    } else {
        empty_profile()
    }
}

/// The state after `creator` is credited with a raffle created at `now`:
/// its profile counts one more raffle and, for a whitelisted partner, so do
/// its partner stats.
pub open spec fn credited(m: FactoryModel, creator: Seq<char>, now: u64) -> FactoryModel {
    FactoryModel {
        partner_stats: if is_whitelisted(m, creator) {
            m.partner_stats.insert(creator, credited_stats(stats_of(m, creator), now))
        } else {
            m.partner_stats
        },
        profiles: m.profiles.insert(
            creator,
            ProfileView {
                raffles_created: sat_inc(profile_of(m, creator).raffles_created),
                ..profile_of(m, creator)
            },
        ),
        ..m
    }
}

impl RaffleFactory {
    /// Checks a request by `creator` for a new raffle with `config`, and says
    /// what to deploy.
    ///
    /// The creator must have authorized the call, the factory and creation
    /// must not be paused, and a creator who is not a whitelisted partner
    /// must wait the creation delay since its last creation; a refused
    /// rate-limited request publishes `CreationRateLimited`. The deployment
    /// carries the factory's fee and treasury in place of the caller's.
    pub fn create_raffle(
        &mut self,
        events: &mut Vec<FactoryEvent>,
        now: u64,
        invoker: &Address,
        creator: Address,
        config: RaffleConfig,
    ) -> (r: Result<RaffleDeployment, ContractError>)
        requires
            create_gate_error(old(self).model(), invoker@, creator@) is None && !is_whitelisted(
                old(self).model(),
                creator@,
            ) ==> unlock_time(old(self).model(), creator@) <= u64::MAX,
        ensures
            match create_error(old(self).model(), invoker@, creator@, now) {
                Some(e) => r == Err::<RaffleDeployment, ContractError>(e) && final(self).model()
                    == old(self).model() && final(events)@ == if e
                    == ContractError::RateLimitExceeded {
                    old(events)@.push(
                        FactoryEvent::CreationRateLimited {
                            creator: creator,
                            unlock_timestamp: unlock_time(old(self).model(), creator@) as u64,
                            timestamp: now,
                        },
                    )
                } else {
                    old(events)@
                },
                None => r == Ok::<RaffleDeployment, ContractError>(
                    deployment_for(old(self).model(), creator, config),
                ) && final(self).model() == after_rate_limit(old(self).model(), creator@, now)
                    && final(events)@ == old(events)@,
            },
    {
        if !invoker.same_as(&creator) {
            return Err(ContractError::NotAuthorized);
        }
        if self.paused {
            return Err(ContractError::ContractPaused);
        }
        if self.creation_paused {
            return Err(ContractError::CreationPaused);
        }
        let whitelisted = match self.whitelisted.get(&creator.strkey) {
            Some(w) => *w,
            None => false,
        };
        if !whitelisted {
            let last = match self.last_creation_time.get(&creator.strkey) {
                Some(t) => *t,
                None => 0,
            };
            let unlock = last + self.min_creation_delay;
            if now < unlock {
                events.push(
                    FactoryEvent::CreationRateLimited {
                        creator,
                        unlock_timestamp: unlock,
                        timestamp: now,
                    },
                );
                return Err(ContractError::RateLimitExceeded);
            }
        }
        let treasury = match &self.treasury {
            Some(t) => t.duplicate(),
            None => {
                return Err(ContractError::TreasuryNotSet);
            },
        };
        let admin = match &self.admin {
            Some(a) => a.duplicate(),
            None => {
                return Err(ContractError::NotAuthorized);
            },
        };
        let wasm_hash = match self.instance_wasm_hash {
            Some(h) => h,
            None => {
                return Err(ContractError::InvalidParameters);
            },
        };
        if !whitelisted {
            self.last_creation_time.insert(creator.strkey.clone(), now);
        }
        let mut final_config = config;
        final_config.protocol_fee_bp = self.protocol_fee_bp;
        final_config.treasury_address = Some(treasury);
        Ok(
            RaffleDeployment {
                admin,
                wasm_hash,
                creator,
                nonce: self.next_raffle_id as u64,
                config: final_config,
            },
        )
    }

    /// Registers a newly deployed raffle: stable id, creator and category
    /// lists, counts, and a checkpoint every `CHECKPOINT_INTERVAL` raffles.
    fn record_new_raffle(
        &mut self,
        events: &mut Vec<FactoryEvent>,
        env: &soroban_sdk::Env,
        now: u64,
        ledger_sequence: u32,
        creator: &Address,
        category: &Option<String>,
        raffle_address: &Address,
    ) -> (id: u32)
        requires
            old(self).total_raffles_created < u32::MAX,
        ensures
            id == old(self).next_raffle_id,
            final(self).model() == registered(
                old(self).model(),
                *creator,
                *category,
                *raffle_address,
                now,
                ledger_sequence,
            ),
            final(events)@ == old(events)@ + checkpoint_events(old(self).model(), now, ledger_sequence),
    {
        let ghost m = self.model();
        let id = self.next_raffle_id;
        self.raffle_by_id.insert(id, raffle_address.duplicate());
        self.next_raffle_id = id.saturating_add(1);
        append_to_list(&mut self.creator_raffles, creator.strkey.clone(), raffle_address.duplicate());
        match category {
            Some(c) => {
                append_to_list(&mut self.category_raffles, c.clone(), raffle_address.duplicate());
            },
            None => {},
        }
        self.raffle_count = self.raffle_count.saturating_add(1);
        let count = self.total_raffles_created + 1;
        self.total_raffles_created = count;
        let ghost events_before = events@;
        if count % CHECKPOINT_INTERVAL == 0 {
            let index = count / CHECKPOINT_INTERVAL;
            let aggregate_hash = checkpoint_digest(env, count, ledger_sequence, now);
            self.checkpoints.insert(
                index,
                StateCheckpoint { index, raffle_count: count, ledger_timestamp: now, aggregate_hash },
            );
            self.latest_checkpoint_index = index;
            events.push(
                FactoryEvent::CheckpointCreated {
                    index,
                    raffle_count: count,
                    ledger_timestamp: now,
                    aggregate_hash,
                },
            );
        }
        proof {
            assert(self.model() == registered(m, *creator, *category, *raffle_address, now, ledger_sequence));
            assert(events@ == events_before + checkpoint_events(m, now, ledger_sequence));
        }
        id
    }

    /// Registers the raffle `create_raffle` deployed for `creator` at
    /// `raffle_address`, and credits the creator: its profile counts one
    /// more raffle, and so do its partner stats if it is a whitelisted
    /// partner. Returns the raffle's stable id.
    pub fn register_raffle(
        &mut self,
        events: &mut Vec<FactoryEvent>,
        env: &soroban_sdk::Env,
        now: u64,
        ledger_sequence: u32,
        creator: Address,
        category: Option<String>,
        raffle_address: Address,
    ) -> (id: u32)
        requires
            old(self).model().total_raffles_created < u32::MAX,
        ensures
            id == old(self).model().next_raffle_id,
            final(self).model() == credited(
                registered(old(self).model(), creator, category, raffle_address, now, ledger_sequence),
                creator@,
                now,
            ),
            final(events)@ == old(events)@ + checkpoint_events(old(self).model(), now, ledger_sequence),
    {
        let id = self.record_new_raffle(
            events,
            env,
            now,
            ledger_sequence,
            &creator,
            &category,
            &raffle_address,
        );
        let ghost m = self.model();
        let whitelisted = match self.whitelisted.get(&creator.strkey) {
            Some(w) => *w,
            None => false,
        };
        if whitelisted {
            let stats = match self.partner_stats.get(&creator.strkey) {
                Some(s) => *s,
                None => PartnerStats {
                    total_raffles: 0,
                    total_volume: 0,
                    total_fees_generated: 0,
                    first_raffle_at: now,
                    latest_raffle_at: 0,
                },
            };
            let first_raffle_at = if stats.total_raffles == 0 {
                now
            } else {
                stats.first_raffle_at
            };
            let updated = PartnerStats {
                total_raffles: stats.total_raffles.saturating_add(1),
                first_raffle_at,
                latest_raffle_at: now,
                ..stats
            };
            self.partner_stats.insert(creator.strkey.clone(), updated);
        }
        let profile = match self.profiles.remove(&creator.strkey) {
            Some(p) => p,
            None => CreatorProfile::empty(),
        };
        let credited_profile = CreatorProfile {
            raffles_created: profile.raffles_created.saturating_add(1),
            ..profile
        };
        self.profiles.insert(creator.strkey.clone(), credited_profile);
        proof {
            assert(self.model().profiles =~= credited(m, creator@, now).profiles);
            assert(self.model().partner_stats =~= credited(m, creator@, now).partner_stats);
        }
        id
    }
}

/// `a + b`, saturating at `u64::MAX`.
pub open spec fn sat_add_u64(a: u64, b: u64) -> u64 {
    if a + b > u64::MAX {
        u64::MAX
    } else {
        (a + b) as u64
    }
}

/// A recurring schedule the factory accepts: the interval is within
/// bounds, and an auto-funded schedule has a finite number of rounds.
pub open spec fn valid_schedule(c: RecurringRaffleConfig) -> bool {
    &&& MIN_RECURRING_INTERVAL_SECONDS <= c.interval_seconds <= MAX_RECURRING_INTERVAL_SECONDS
    &&& !(c.max_rounds == 0 && c.auto_fund)
}

/// Why `create_recurring_raffle` fails, if it does.
pub open spec fn recurring_create_error(
    m: FactoryModel,
    invoker: Seq<char>,
    creator: Seq<char>,
    config: RecurringRaffleConfig,
) -> Option<ContractError> {
    if invoker != creator {
        Some(ContractError::NotAuthorized)
    } else if m.paused {
        Some(ContractError::ContractPaused)
    } else if !valid_schedule(config) {
        Some(ContractError::InvalidParameters)
    } else {
        None
    }
}

/// A new schedule: first round due one interval after `now`, no rounds yet.
pub open spec fn new_schedule_entry(
    creator: Address,
    config: RecurringRaffleConfig,
    now: u64,
) -> RecurringRaffleEntry {
    RecurringRaffleEntry {
        creator,
        config,
        next_due: sat_add_u64(now, config.interval_seconds),
        current_round: 0,
        active: true,
        last_raffle_address: None,
    }
}

/// The state after `entry` is stored under the next recurring id, with no
/// instances yet.
pub open spec fn with_schedule(m: FactoryModel, entry: RecurringRaffleEntry) -> FactoryModel {
    FactoryModel {
        recurring: m.recurring.insert(m.next_recurring_id, entry),
        next_recurring_id: sat_inc(m.next_recurring_id),
        recurring_instances: m.recurring_instances.insert(m.next_recurring_id, Seq::empty()),
        ..m
    }
}

/// Why `trigger_next_round` fails for schedule `id` at `now`, if it does.
pub open spec fn trigger_error(m: FactoryModel, now: u64, id: u32) -> Option<ContractError> {
    if m.paused {
        Some(ContractError::ContractPaused)
    } else if !m.recurring.contains_key(id) {
        Some(ContractError::RecurringNotFound)
    } else if !m.recurring[id].active {
        Some(ContractError::RecurringInactive)
    } else if now < m.recurring[id].next_due {
        Some(ContractError::IntervalNotElapsed)
    } else if m.recurring[id].config.max_rounds > 0 && m.recurring[id].current_round
        >= m.recurring[id].config.max_rounds {
        Some(ContractError::MaxRoundsReached)
    } else if m.admin is None {
        Some(ContractError::NotAuthorized)
    } else if m.instance_wasm_hash is None {
        Some(ContractError::InvalidParameters)
    } else {
        None
    }
}

/// The deployment for the next round of schedule `id`: its creator and its
/// base configuration, as stored.
pub open spec fn round_deployment(m: FactoryModel, id: u32) -> RaffleDeployment {
    RaffleDeployment {
        admin: admin_of(m),
        wasm_hash: m.instance_wasm_hash->Some_0,
        creator: m.recurring[id].creator,
        nonce: m.next_raffle_id as u64,
        config: m.recurring[id].config.base_config,
    }
}

/// A schedule after a round deployed at `raffle` at time `now`.
pub open spec fn advanced_entry(e: RecurringRaffleEntry, now: u64, raffle: Address) -> RecurringRaffleEntry {
    RecurringRaffleEntry {
        current_round: sat_inc(e.current_round),
        next_due: sat_add_u64(now, e.config.interval_seconds),
        last_raffle_address: Some(raffle),
        ..e
    }
}

/// The state after a round of schedule `id` deployed at `raffle` is
/// registered.
pub open spec fn round_registered(
    m: FactoryModel,
    id: u32,
    raffle: Address,
    now: u64,
    ledger_sequence: u32,
) -> FactoryModel {
    let e = m.recurring[id];
    let r = registered(m, e.creator, e.config.base_config.category, raffle, now, ledger_sequence);
    FactoryModel {
        recurring: r.recurring.insert(id, advanced_entry(e, now, raffle)),
        recurring_instances: r.recurring_instances.insert(
            id,
            list_at(r.recurring_instances, id).push(raffle),
        ),
        ..r
    }
}

/// Why `cancel_recurring_raffle` fails, if it does: only the schedule's
/// creator or the admin may cancel, and only for itself.
pub open spec fn cancel_recurring_error(
    m: FactoryModel,
    invoker: Seq<char>,
    id: u32,
    caller: Seq<char>,
) -> Option<ContractError> {
    if !m.recurring.contains_key(id) {
        Some(ContractError::RecurringNotFound)
    } else if invoker != caller || !(caller == m.recurring[id].creator@ || is_admin(m, caller)) {
        Some(ContractError::NotAuthorized)
    } else {
        None
    }
}

impl RaffleFactory {
    /// Creates a recurring raffle schedule for `creator`; its first round is
    /// due one interval from `now`. Returns the schedule's id.
    pub fn create_recurring_raffle(
        &mut self,
        events: &mut Vec<FactoryEvent>,
        now: u64,
        invoker: &Address,
        creator: Address,
        config: RecurringRaffleConfig,
    ) -> (r: Result<u32, ContractError>)
        ensures
            match recurring_create_error(old(self).model(), invoker@, creator@, config) {
                Some(e) => r == Err::<u32, ContractError>(e) && final(self).model() == old(self).model() && final(events)@ == old(events)@,
                None => r == Ok::<u32, ContractError>(old(self).model().next_recurring_id)
                    && final(self).model() == with_schedule(
                    old(self).model(),
                    new_schedule_entry(creator, config, now),
                ) && final(events)@ == old(events)@.push(
                    FactoryEvent::RecurringRaffleCreated {
                        recurring_id: old(self).model().next_recurring_id,
                        creator: creator,
                        interval_seconds: config.interval_seconds,
                        max_rounds: config.max_rounds,
                        auto_fund: config.auto_fund,
                        next_due: sat_add_u64(now, config.interval_seconds),
                        timestamp: now,
                    },
                ),
            },
    {
        if !invoker.same_as(&creator) {
            return Err(ContractError::NotAuthorized);
        }
        if self.paused {
            return Err(ContractError::ContractPaused);
        }
        if config.interval_seconds < MIN_RECURRING_INTERVAL_SECONDS || config.interval_seconds
            > MAX_RECURRING_INTERVAL_SECONDS {
            return Err(ContractError::InvalidParameters);
        }
        if config.max_rounds == 0 && config.auto_fund {
            return Err(ContractError::InvalidParameters);
        }
        let ghost m = self.model();
        let id = self.next_recurring_id;
        let next_due = now.saturating_add(config.interval_seconds);
        let event = FactoryEvent::RecurringRaffleCreated {
            recurring_id: id,
            creator: creator.duplicate(),
            interval_seconds: config.interval_seconds,
            max_rounds: config.max_rounds,
            auto_fund: config.auto_fund,
            next_due,
            timestamp: now,
        };
        self.recurring.insert(
            id,
            RecurringRaffleEntry {
                creator,
                config,
                next_due,
                current_round: 0,
                active: true,
                last_raffle_address: None,
            },
        );
        self.next_recurring_id = id.saturating_add(1);
        self.recurring_instances.insert(id, Vec::new());
        events.push(event);
        proof {
            assert(self.model().recurring_instances =~= m.recurring_instances.insert(id, Seq::empty()));
        }
        Ok(id)
    }

    /// Checks that the next round of schedule `recurring_id` is due, and
    /// says what to deploy for it. Anyone may trigger a due round.
    pub fn trigger_next_round(&self, now: u64, recurring_id: u32) -> (r: Result<
        RaffleDeployment,
        ContractError,
    >)
        ensures
            match trigger_error(self.model(), now, recurring_id) {
                Some(e) => r == Err::<RaffleDeployment, ContractError>(e),
                None => r == Ok::<RaffleDeployment, ContractError>(
                    round_deployment(self.model(), recurring_id),
                ),
            },
    {
        if self.paused {
            return Err(ContractError::ContractPaused);
        }
        let entry = match self.recurring.get(&recurring_id) {
            Some(e) => e,
            None => {
                return Err(ContractError::RecurringNotFound);
            },
        };
        if !entry.active {
            return Err(ContractError::RecurringInactive);
        }
        if now < entry.next_due {
            return Err(ContractError::IntervalNotElapsed);
        }
        if entry.config.max_rounds > 0 && entry.current_round >= entry.config.max_rounds {
            return Err(ContractError::MaxRoundsReached);
        }
        let admin = match &self.admin {
            Some(a) => a.duplicate(),
            None => {
                return Err(ContractError::NotAuthorized);
            },
        };
        let wasm_hash = match self.instance_wasm_hash {
            Some(h) => h,
            None => {
                return Err(ContractError::InvalidParameters);
            },
        };
        Ok(
            RaffleDeployment {
                admin,
                wasm_hash,
                creator: entry.creator.duplicate(),
                nonce: self.next_raffle_id as u64,
                config: entry.config.base_config.duplicate(),
            },
        )
    }

    /// Registers the raffle deployed at `raffle_address` for the next round
    /// of schedule `recurring_id`, and advances the schedule: one more
    /// round, next round due one interval from `now`. Returns the round's
    /// number.
    pub fn register_round_raffle(
        &mut self,
        events: &mut Vec<FactoryEvent>,
        env: &soroban_sdk::Env,
        now: u64,
        ledger_sequence: u32,
        recurring_id: u32,
        raffle_address: Address,
    ) -> (round: u32)
        requires
            old(self).model().recurring.contains_key(recurring_id),
            old(self).model().total_raffles_created < u32::MAX,
        ensures
            round == sat_inc(old(self).model().recurring[recurring_id].current_round),
            final(self).model() == round_registered(
                old(self).model(),
                recurring_id,
                raffle_address,
                now,
                ledger_sequence,
            ),
            final(events)@ == old(events)@ + checkpoint_events(old(self).model(), now, ledger_sequence)
                + seq![
                FactoryEvent::RecurringRoundTriggered {
                    recurring_id: recurring_id,
                    round: round,
                    raffle_address: raffle_address,
                    next_due: sat_add_u64(
                        now,
                        old(self).model().recurring[recurring_id].config.interval_seconds,
                    ),
                    timestamp: now,
                },
            ],
    {
        let ghost m = self.model();
        let (creator, category) = {
            let e = self.recurring.get(&recurring_id).unwrap();
            let category = match &e.config.base_config.category {
                Some(c) => Some(c.clone()),
                None => None,
            };
            (e.creator.duplicate(), category)
        };
        self.record_new_raffle(events, env, now, ledger_sequence, &creator, &category, &raffle_address);
        let ghost r = self.model();
        let ghost events_mid = events@;
        let entry = self.recurring.remove(&recurring_id).unwrap();
        let round = entry.current_round.saturating_add(1);
        let next_due = now.saturating_add(entry.config.interval_seconds);
        let advanced = RecurringRaffleEntry {
            current_round: round,
            next_due,
            last_raffle_address: Some(raffle_address.duplicate()),
            ..entry
        };
        self.recurring.insert(recurring_id, advanced);
        append_to_id_list(&mut self.recurring_instances, recurring_id, raffle_address.duplicate());
        events.push(
            FactoryEvent::RecurringRoundTriggered {
                recurring_id,
                round,
                raffle_address,
                next_due,
                timestamp: now,
            },
        );
        proof {
            assert(self.model().recurring =~= r.recurring.insert(
                recurring_id,
                advanced_entry(m.recurring[recurring_id], now, raffle_address),
            ));
            assert(events@ =~= events_mid + seq![
                FactoryEvent::RecurringRoundTriggered {
                    recurring_id: recurring_id,
                    round: round,
                    raffle_address: raffle_address,
                    next_due: next_due,
                    timestamp: now,
                },
            ]);
        }
        round
    }

    /// Deactivates schedule `recurring_id`; its creator or the admin may.
    pub fn cancel_recurring_raffle(
        &mut self,
        events: &mut Vec<FactoryEvent>,
        now: u64,
        invoker: &Address,
        recurring_id: u32,
        caller: Address,
    ) -> (r: Result<(), ContractError>)
        ensures
            match cancel_recurring_error(old(self).model(), invoker@, recurring_id, caller@) {
                Some(e) => r == Err::<(), ContractError>(e) && final(self).model() == old(self).model() && final(events)@ == old(events)@,
                None => r is Ok && final(self).model() == (FactoryModel {
                    recurring: old(self).model().recurring.insert(
                        recurring_id,
                        RecurringRaffleEntry {
                            active: false,
                            ..old(self).model().recurring[recurring_id]
                        },
                    ),
                    ..old(self).model()
                }) && final(events)@ == old(events)@.push(
                    FactoryEvent::RecurringRaffleCancelled {
                        recurring_id: recurring_id,
                        cancelled_by: caller,
                        rounds_completed: old(self).model().recurring[recurring_id].current_round,
                        timestamp: now,
                    },
                ),
            },
    {
        let (is_creator, rounds) = match self.recurring.get(&recurring_id) {
            Some(e) => (caller.same_as(&e.creator), e.current_round),
            None => {
                return Err(ContractError::RecurringNotFound);
            },
        };
        if !is_creator {
            let is_admin = match &self.admin {
                Some(a) => a.same_as(&caller),
                None => false,
            };
            if !is_admin {
                return Err(ContractError::NotAuthorized);
            }
        }
        if !invoker.same_as(&caller) {
            return Err(ContractError::NotAuthorized);
        }
        let ghost m = self.model();
        let entry = self.recurring.remove(&recurring_id).unwrap();
        self.recurring.insert(recurring_id, RecurringRaffleEntry { active: false, ..entry });
        proof {
            assert(self.model().recurring =~= m.recurring.insert(
                recurring_id,
                RecurringRaffleEntry { active: false, ..m.recurring[recurring_id] },
            ));
        }
        events.push(
            FactoryEvent::RecurringRaffleCancelled {
                recurring_id,
                cancelled_by: caller,
                rounds_completed: rounds,
                timestamp: now,
            },
        );
        Ok(())
    }

    /// Schedule `recurring_id`, if it exists.
    pub fn get_recurring_raffle(&self, recurring_id: u32) -> (r: Option<RecurringRaffleEntry>)
        ensures
            match r {
                Some(e) => self.model().recurring.contains_key(recurring_id) && e
                    == self.model().recurring[recurring_id],
                None => !self.model().recurring.contains_key(recurring_id),
            },
    {
        match self.recurring.get(&recurring_id) {
            Some(e) => Some(e.duplicate()),
            None => None,
        }
    }

    /// The raffles deployed for schedule `recurring_id` so far, in round
    /// order (empty for an unknown schedule).
    pub fn get_recurring_instances(&self, recurring_id: u32) -> (r: Vec<Address>)
        ensures
            r@ == list_at(self.model().recurring_instances, recurring_id),
    {
        match self.recurring_instances.get(&recurring_id) {
            Some(v) => duplicate_list(v),
            None => Vec::new(),
        }
    }
}

} // verus!
