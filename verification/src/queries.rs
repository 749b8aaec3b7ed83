//! Reads of the factory's state, paginated listings, and the operations
//! that raffles and participants call: volume, participants, leaderboards
//! and creator profiles.
use crate::address::Address;
use crate::creation::{is_whitelisted, profile_of, stats_of};
use crate::factory::{list_at, FactoryModel, RaffleFactory};
use crate::leaderboard::{one_entry_per_raffle, rank_with_entry, ranked, ranked_board, LEADERBOARD_CAP};
use crate::types::{
    spec_effective_limit, effective_limit, ContractError, CreatorProfile, FactoryEvent,
    LeaderboardMetric, PageResultRaffles, PaginationParams, PartnerStats, ProfileView,
    ProtocolStats, StateCheckpoint, MAX_DESCRIPTION_LENGTH,
};
use vstd::prelude::*;
use vstd::utf8::encode_utf8;

verus! {

broadcast use vstd::std_specs::hash::group_hash_axioms;

/// Where a page that starts at `offset` ends: `offset` plus the effective
/// limit (saturating), but not past `total`.
pub open spec fn page_end(params: PaginationParams, total: int) -> int {
    let lim = spec_effective_limit(params.limit);
    let end = if params.offset + lim > u32::MAX {
        u32::MAX as int
    } else {
        params.offset + lim
    };
    if end < total {
        end
    } else {
        total
    }
}

/// The page of `list` that `params` asks for.
pub open spec fn page_of(list: Seq<Address>, params: PaginationParams) -> Seq<Address> {
    if params.offset >= list.len() {
        Seq::empty()
    } else {
        list.subrange(params.offset as int, page_end(params, list.len() as int))
    }
}

/// More of `list` lies past the page `params` asks for.
pub open spec fn more_after(list_len: int, params: PaginationParams) -> bool {
    params.offset < list_len && page_end(params, list_len) < list_len
}

/// The live raffles with stable ids in `[lo, hi)`, in id order; tombstoned
/// ids are skipped.
pub open spec fn live_between(ids: Map<u32, Address>, lo: int, hi: int) -> Seq<Address>
    decreases hi - lo,
{
    if hi <= lo {
        Seq::empty()
    } else {
        let prev = live_between(ids, lo, hi - 1);
        if ids.contains_key((hi - 1) as u32) {
            prev.push(ids[(hi - 1) as u32])
        } else {
            prev
        }
    }
}

/// The leaderboard for `metric`.
pub open spec fn board_of(m: FactoryModel, metric: LeaderboardMetric) -> Seq<(Address, i128)> {
    match metric {
        LeaderboardMetric::TicketsSold => m.top_by_tickets,
        LeaderboardMetric::PrizeAmount => m.top_by_prize,
        LeaderboardMetric::TotalVolume => m.top_by_volume,
    }
}

/// The volume recorded for `asset` (0 if none).
pub open spec fn volume_of(m: FactoryModel, asset: Seq<char>) -> i128 {
    if m.total_volume.contains_key(asset) {
        m.total_volume[asset]
    } else {
        0
    }
}

/// The state after `participant` is counted among the unique
/// participants (no change if it already is).
pub open spec fn with_participant(m: FactoryModel, participant: Seq<char>) -> FactoryModel {
    if m.unique_participants.contains_key(participant) {
        m
    } else {
        FactoryModel {
            unique_participants: m.unique_participants.insert(participant, true),
            total_unique_participants: (m.total_unique_participants + 1) as u32,
            ..m
        }
    }
}

/// The volume of `asset` with `amount` more fits in an `i128`.
pub open spec fn volume_fits(m: FactoryModel, asset: Seq<char>, amount: i128) -> bool {
    i128::MIN <= volume_of(m, asset) + amount <= i128::MAX
}

/// The state after `amount` is added to the volume of `asset`.
pub open spec fn with_volume(m: FactoryModel, asset: Seq<char>, amount: i128) -> FactoryModel {
    FactoryModel {
        total_volume: m.total_volume.insert(asset, (volume_of(m, asset) + amount) as i128),
        ..m
    }
}

/// A name a creator may take: at most `MAX_DESCRIPTION_LENGTH` bytes.
pub open spec fn valid_profile_name(name: Seq<char>) -> bool {
    encode_utf8(name).len() <= MAX_DESCRIPTION_LENGTH
}

/// Copies the addresses of `list` at positions `[from, to)`.
fn copy_range(list: &Vec<Address>, from: usize, to: usize) -> (r: Vec<Address>)
    requires
        from <= to <= list@.len(),
    ensures
        r@ == list@.subrange(from as int, to as int),
{
    let mut out: Vec<Address> = Vec::new();
    let mut i: usize = from;
    while i < to
        invariant
            from <= i <= to <= list@.len(),
            out@ == list@.subrange(from as int, i as int),
        decreases to - i,
    {
        out.push(list[i].duplicate());
        proof {
            assert(list@.subrange(from as int, i + 1) =~= list@.subrange(from as int, i as int).push(
                list@[i as int],
            ));
        }
        i = i + 1;
    }
    out
}

/// The page of `list` that `params` asks for.
fn page(list: &Vec<Address>, params: PaginationParams) -> (r: PageResultRaffles)
    requires
        list@.len() <= u32::MAX,
    ensures
        r.items@ == page_of(list@, params),
        r.total == list@.len(),
        r.has_more == more_after(list@.len() as int, params),
{
    let total = list.len() as u32;
    let lim = effective_limit(params.limit);
    let offset = params.offset;
    if offset >= total {
        return PageResultRaffles { items: Vec::new(), total, has_more: false };
    }
    let sum = offset.saturating_add(lim);
    let end = if sum < total {
        sum
    } else {
        total
    };
    let items = copy_range(list, offset as usize, end as usize);
    PageResultRaffles { items, total, has_more: end < total }
}

impl RaffleFactory {
    /// A snapshot of key factory metrics.
    pub fn get_protocol_stats(&self) -> (r: ProtocolStats)
        ensures
            r == (ProtocolStats {
                total_raffles_created: self.model().total_raffles_created,
                protocol_fee_bp: self.model().protocol_fee_bp,
                paused: self.model().paused,
                total_unique_participants: self.model().total_unique_participants,
            }),
    {
        ProtocolStats {
            total_raffles_created: self.total_raffles_created,
            protocol_fee_bp: self.protocol_fee_bp,
            paused: self.paused,
            total_unique_participants: self.total_unique_participants,
        }
    }

    /// The raffle with stable id `raffle_id`, unless the id was never
    /// assigned or has been cleaned up.
    pub fn get_raffle_by_id(&self, raffle_id: u32) -> (r: Option<Address>)
        ensures
            match r {
                Some(a) => self.model().raffle_by_id.contains_key(raffle_id) && a
                    == self.model().raffle_by_id[raffle_id],
                None => !self.model().raffle_by_id.contains_key(raffle_id),
            },
    {
        match self.raffle_by_id.get(&raffle_id) {
            Some(a) => Some(a.duplicate()),
            None => None,
        }
    }

    /// The stable id the next raffle gets; ids below it were assigned.
    pub fn get_next_raffle_id(&self) -> (r: u32)
        ensures
            r == self.model().next_raffle_id,
    {
        self.next_raffle_id
    }

    /// The number of live raffles.
    pub fn get_raffle_count(&self) -> (r: u32)
        ensures
            r == self.model().raffle_count,
    {
        self.raffle_count
    }

    /// The ticket-sale volume recorded for `asset`.
    pub fn get_total_volume(&self, asset: &Address) -> (r: i128)
        ensures
            r == volume_of(self.model(), asset@),
    {
        match self.total_volume.get(&asset.strkey) {
            Some(v) => *v,
            None => 0,
        }
    }

    /// Adds `amount` to the volume recorded for `asset`; refused with
    /// `ArithmeticOverflow` when the total would leave the `i128` range.
    pub fn record_volume(&mut self, asset: Address, amount: i128) -> (r: Result<(), ContractError>)
        ensures
            r is Ok <==> volume_fits(old(self).model(), asset@, amount),
            r matches Err(e) ==> e == ContractError::ArithmeticOverflow && final(self).model() == old(
                self,
            ).model(),
            r is Ok ==> final(self).model() == with_volume(old(self).model(), asset@, amount),
    {
        let current = match self.total_volume.get(&asset.strkey) {
            Some(v) => *v,
            None => 0,
        };
        match current.checked_add(amount) {
            Some(total) => {
                self.total_volume.insert(asset.strkey, total);
                Ok(())
            },
            None => Err(ContractError::ArithmeticOverflow),
        }
    }

    /// The current admin; `NotAuthorized` before initialization.
    pub fn get_admin(&self) -> (r: Result<Address, ContractError>)
        ensures
            match self.model().admin {
                Some(a) => r == Ok::<Address, ContractError>(a),
                None => r == Err::<Address, ContractError>(ContractError::NotAuthorized),
            },
    {
        match &self.admin {
            Some(a) => Ok(a.duplicate()),
            None => Err(ContractError::NotAuthorized),
        }
    }

    /// A page of live raffles by stable id: ids from `params.offset` up to
    /// the effective limit, skipping cleaned-up ids. `total` is the number
    /// of live raffles.
    pub fn get_raffles_page(&self, params: PaginationParams) -> (r: PageResultRaffles)
        ensures
            r.items@ == if params.offset >= self.model().next_raffle_id {
                Seq::empty()
            } else {
                live_between(
                    self.model().raffle_by_id,
                    params.offset as int,
                    page_end(params, self.model().next_raffle_id as int),
                )
            },
            r.total == self.model().raffle_count,
            r.has_more == more_after(self.model().next_raffle_id as int, params),
    {
        let next_id = self.next_raffle_id;
        let lim = effective_limit(params.limit);
        let offset = params.offset;
        let total = self.raffle_count;
        if offset >= next_id {
            return PageResultRaffles { items: Vec::new(), total, has_more: false };
        }
        let sum = offset.saturating_add(lim);
        let end = if sum < next_id {
            sum
        } else {
            next_id
        };
        let mut items: Vec<Address> = Vec::new();
        let mut id: u32 = offset;
        while id < end
            invariant
                offset <= id <= end,
                items@ == live_between(self.model().raffle_by_id, offset as int, id as int),
            decreases end - id,
        {
            match self.raffle_by_id.get(&id) {
                Some(a) => {
                    items.push(a.duplicate());
                },
                None => {},
            }
            id = id + 1;
        }
        PageResultRaffles { items, total, has_more: end < next_id }
    }

    /// A page of the raffles `creator` created, in creation order.
    pub fn get_raffles_by_creator(&self, creator: &Address, params: PaginationParams) -> (r:
        PageResultRaffles)
        requires
            list_at(self.model().creator_raffles, creator@).len() <= u32::MAX,
        ensures
            r.items@ == page_of(list_at(self.model().creator_raffles, creator@), params),
            r.total == list_at(self.model().creator_raffles, creator@).len(),
            r.has_more == more_after(
                list_at(self.model().creator_raffles, creator@).len() as int,
                params,
            ),
    {
        match self.creator_raffles.get(&creator.strkey) {
            Some(list) => page(list, params),
            None => page(&Vec::new(), params),
        }
    }

    /// A page of the raffles tagged with `category`, in creation order; an
    /// unknown category gives an empty page.
    pub fn get_raffles_by_category(&self, category: &String, params: PaginationParams) -> (r:
        PageResultRaffles)
        requires
            list_at(self.model().category_raffles, category@).len() <= u32::MAX,
        ensures
            r.items@ == page_of(list_at(self.model().category_raffles, category@), params),
            r.total == list_at(self.model().category_raffles, category@).len(),
            r.has_more == more_after(
                list_at(self.model().category_raffles, category@).len() as int,
                params,
            ),
    {
        match self.category_raffles.get(category) {
            Some(list) => page(list, params),
            None => page(&Vec::new(), params),
        }
    }

    /// Whether the factory is paused.
    pub fn is_factory_paused(&self) -> (r: bool)
        ensures
            r == self.model().paused,
    {
        self.paused
    }

    /// Whether the creation of raffles is paused.
    pub fn is_creation_paused(&self) -> (r: bool)
        ensures
            r == self.model().creation_paused,
    {
        self.creation_paused
    }

    /// Whether the emergency pause is on.
    pub fn is_global_paused(&self) -> (r: bool)
        ensures
            r == self.model().global_emergency_pause,
    {
        self.global_emergency_pause
    }

    /// Checkpoint `index`, if it was taken.
    pub fn get_checkpoint(&self, index: u32) -> (r: Option<StateCheckpoint>)
        ensures
            match r {
                Some(c) => self.model().checkpoints.contains_key(index) && c
                    == self.model().checkpoints[index],
                None => !self.model().checkpoints.contains_key(index),
            },
    {
        match self.checkpoints.get(&index) {
            Some(c) => Some(*c),
            None => None,
        }
    }

    /// The index of the latest checkpoint (0 before the first).
    pub fn get_latest_checkpoint_index(&self) -> (r: u32)
        ensures
            r == self.model().latest_checkpoint_index,
    {
        self.latest_checkpoint_index
    }

    /// Counts `participant` among the platform's unique participants, once.
    pub fn track_participant(&mut self, invoker: &Address, participant: Address) -> (r: Result<
        (),
        ContractError,
    >)
        requires
            invoker@ == participant@ && !old(self).model().unique_participants.contains_key(
                participant@,
            ) ==> old(self).model().total_unique_participants < u32::MAX,
        ensures
            r is Ok <==> invoker@ == participant@,
            r matches Err(e) ==> e == ContractError::NotAuthorized && final(self).model() == old(
                self,
            ).model(),
            r is Ok ==> final(self).model() == with_participant(old(self).model(), participant@),
    {
        if !invoker.same_as(&participant) {
            return Err(ContractError::NotAuthorized);
        }
        if !self.unique_participants.contains_key(&participant.strkey) {
            self.unique_participants.insert(participant.strkey, true);
            self.total_unique_participants = self.total_unique_participants + 1;
        }
        Ok(())
    }

    /// The number of unique participants.
    pub fn get_unique_participants(&self) -> (r: u32)
        ensures
            r == self.model().total_unique_participants,
    {
        self.total_unique_participants
    }

    /// A partner's stats while it is whitelisted; `None` otherwise.
    pub fn get_partner_stats(&self, partner: &Address) -> (r: Option<PartnerStats>)
        ensures
            r == if is_whitelisted(self.model(), partner@) {
                Some(stats_of(self.model(), partner@))
            } else {
                None::<PartnerStats>
            },
    {
        let whitelisted = match self.whitelisted.get(&partner.strkey) {
            Some(w) => *w,
            None => false,
        };
        if !whitelisted {
            return None;
        }
        match self.partner_stats.get(&partner.strkey) {
            Some(s) => Some(*s),
            None => Some(
                PartnerStats {
                    total_raffles: 0,
                    total_volume: 0,
                    total_fees_generated: 0,
                    first_raffle_at: 0,
                    latest_raffle_at: 0,
                },
            ),
        }
    }

    /// A page of the whitelisted partners, in the order they joined.
    pub fn get_all_partners(&self, params: PaginationParams) -> (r: Vec<Address>)
        requires
            self.model().partners.len() <= u32::MAX,
        ensures
            r@ == page_of(self.model().partners, params),
    {
        page(&self.partners, params).items
    }

    /// Records a finished raffle's figures on the three leaderboards; the
    /// raffle itself must call.
    pub fn record_leaderboard_entry(
        &mut self,
        invoker: &Address,
        raffle_address: Address,
        tickets_sold: i128,
        prize_amount: i128,
        total_volume: i128,
    ) -> (r: Result<(), ContractError>)
        ensures
            r is Ok <==> invoker@ == raffle_address@,
            r matches Err(e) ==> e == ContractError::NotAuthorized && final(self).model() == old(
                self,
            ).model(),
            r is Ok ==> {
                &&& final(self).model() == (FactoryModel {
                    top_by_tickets: ranked_board(
                        old(self).model().top_by_tickets,
                        raffle_address,
                        tickets_sold,
                    ),
                    top_by_prize: ranked_board(old(self).model().top_by_prize, raffle_address, prize_amount),
                    top_by_volume: ranked_board(
                        old(self).model().top_by_volume,
                        raffle_address,
                        total_volume,
                    ),
                    ..old(self).model()
                })
                &&& ranked(final(self).model().top_by_tickets)
                &&& ranked(final(self).model().top_by_prize)
                &&& ranked(final(self).model().top_by_volume)
                &&& final(self).model().top_by_tickets.len() <= LEADERBOARD_CAP
                &&& final(self).model().top_by_prize.len() <= LEADERBOARD_CAP
                &&& final(self).model().top_by_volume.len() <= LEADERBOARD_CAP
                &&& one_entry_per_raffle(old(self).model().top_by_tickets) ==> one_entry_per_raffle(
                    final(self).model().top_by_tickets,
                )
                &&& one_entry_per_raffle(old(self).model().top_by_prize) ==> one_entry_per_raffle(
                    final(self).model().top_by_prize,
                )
                &&& one_entry_per_raffle(old(self).model().top_by_volume) ==> one_entry_per_raffle(
                    final(self).model().top_by_volume,
                )
            },
    {
        if !invoker.same_as(&raffle_address) {
            return Err(ContractError::NotAuthorized);
        }
        self.top_by_tickets = rank_with_entry(&self.top_by_tickets, &raffle_address, tickets_sold);
        self.top_by_prize = rank_with_entry(&self.top_by_prize, &raffle_address, prize_amount);
        self.top_by_volume = rank_with_entry(&self.top_by_volume, &raffle_address, total_volume);
        Ok(())
    }

    /// The leaderboard for `metric`, highest first.
    pub fn get_leaderboard(&self, metric: LeaderboardMetric) -> (r: Vec<(Address, i128)>)
        ensures
            r@ == board_of(self.model(), metric),
    {
        let board = match metric {
            LeaderboardMetric::TicketsSold => &self.top_by_tickets,
            LeaderboardMetric::PrizeAmount => &self.top_by_prize,
            LeaderboardMetric::TotalVolume => &self.top_by_volume,
        };
        let mut out: Vec<(Address, i128)> = Vec::new();
        let mut i: usize = 0;
        while i < board.len()
            invariant
                i <= board@.len(),
                out@ == board@.subrange(0, i as int),
            decreases board@.len() - i,
        {
            out.push((board[i].0.duplicate(), board[i].1));
            proof {
                assert(board@.subrange(0, i + 1) =~= board@.subrange(0, i as int).push(board@[i as int]));
            }
            i = i + 1;
        }
        proof {
            assert(board@.subrange(0, board@.len() as int) =~= board@);
        }
        out
    }

    /// Sets `creator`'s display name, at most `MAX_DESCRIPTION_LENGTH`
    /// bytes; the creator itself must call.
    pub fn set_profile_name(
        &mut self,
        events: &mut Vec<FactoryEvent>,
        now: u64,
        invoker: &Address,
        creator: Address,
        name: String,
    ) -> (r: Result<(), ContractError>)
        ensures
            invoker@ != creator@ ==> r == Err::<(), ContractError>(ContractError::NotAuthorized),
            invoker@ == creator@ && !valid_profile_name(name@) ==> r == Err::<(), ContractError>(
                ContractError::InvalidParameters,
            ),
            r is Ok <==> invoker@ == creator@ && valid_profile_name(name@),
            r is Err ==> final(self).model() == old(self).model() && final(events)@ == old(events)@,
            r is Ok ==> final(self).model() == (FactoryModel {
                profiles: old(self).model().profiles.insert(
                    creator@,
                    ProfileView { name: name@, ..profile_of(old(self).model(), creator@) },
                ),
                ..old(self).model()
            }) && final(events)@ == old(events)@.push(
                FactoryEvent::ProfileNameSet { creator: creator, name: name, timestamp: now },
            ),
    {
        if !invoker.same_as(&creator) {
            return Err(ContractError::NotAuthorized);
        }
        if name.as_str().as_bytes().len() > MAX_DESCRIPTION_LENGTH as usize {
            return Err(ContractError::InvalidParameters);
        }
        let ghost m = self.model();
        let profile = match self.profiles.remove(&creator.strkey) {
            Some(p) => p,
            None => CreatorProfile::empty(),
        };
        self.profiles.insert(creator.strkey.clone(), CreatorProfile { name: name.clone(), ..profile });
        proof {
            assert(self.model().profiles =~= m.profiles.insert(
                creator@,
                ProfileView { name: name@, ..profile_of(m, creator@) },
            ));
        }
        events.push(FactoryEvent::ProfileNameSet { creator, name, timestamp: now });
        Ok(())
    }

    /// `creator`'s profile; the empty profile if it has none.
    pub fn get_profile(&self, creator: &Address) -> (r: CreatorProfile)
        ensures
            r@ == profile_of(self.model(), creator@),
    {
        match self.profiles.get(&creator.strkey) {
            Some(p) => p.duplicate(),
            None => CreatorProfile::empty(),
        }
    }
}

} // verus!
