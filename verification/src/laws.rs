//! Properties of the factory that span several operations.
use crate::address::Address;
use crate::admin::{accept_error, cleaned, first_at, listed, no_repeats, partners_after, position};
use crate::creation::{
    after_rate_limit, create_error, create_gate_error, credited, deploy_error, is_whitelisted,
    recurring_create_error, registered, round_registered, sat_add_u64, trigger_error,
};
use crate::hashing::{be_u64, quorum_seed, seed_bytes, sha256_of, u64_from_be};
use crate::factory::{
    applied, execute_error, is_admin, next_op_id, op_error, sat_inc, with_proposal, FactoryModel,
};
use crate::queries::{more_after, page_of, volume_fits, volume_of, with_participant, with_volume};
use crate::types::{
    spec_effective_limit, AdminOp, ContractError, PaginationParams, MAX_PAGE_LIMIT,
    TIMELOCK_DELAY_SECONDS,
};
use vstd::prelude::*;

verus! {

/// A proposed operation becomes executable exactly when its timelock has
/// elapsed: before `now + TIMELOCK_DELAY_SECONDS` its execution is refused
/// with `TimelockNotElapsed`; from then on only the operation's own
/// validity can refuse it.
pub proof fn lemma_timelock(m: FactoryModel, now: u64, op: AdminOp, invoker: Seq<char>, t: u64)
    requires
        is_admin(m, invoker),
        now + TIMELOCK_DELAY_SECONDS <= u64::MAX,
    ensures
        execute_error(with_proposal(m, now, op), invoker, t, next_op_id(m)) == if t
            < now + TIMELOCK_DELAY_SECONDS {
            Some(ContractError::TimelockNotElapsed)
        } else {
            op_error(m, op)
        },
{
}

/// Every operation id handed out so far is at most the counter.
pub open spec fn ids_issued(m: FactoryModel) -> bool {
    forall|id: u32| #[trigger] m.pending_ops.contains_key(id) ==> id <= m.op_counter
}

/// Proposing never displaces a queued operation: the new proposal gets an
/// id above every id issued before, the queued operations stay as they
/// were, and ids stay at most the counter.
pub proof fn lemma_proposal_ids_fresh(m: FactoryModel, now: u64, op: AdminOp)
    requires
        ids_issued(m),
        m.op_counter < u32::MAX,
    ensures
        !m.pending_ops.contains_key(next_op_id(m)),
        next_op_id(m) == m.op_counter + 1,
        forall|id: u32| #[trigger]
            m.pending_ops.contains_key(id) ==> with_proposal(m, now, op).pending_ops.contains_key(id)
                && with_proposal(m, now, op).pending_ops[id] == m.pending_ops[id],
        ids_issued(with_proposal(m, now, op)),
{
}

/// A cancelled operation can no longer be executed: the admin is told
/// `NoPendingOp`.
pub proof fn lemma_cancelled_op_is_gone(m: FactoryModel, invoker: Seq<char>, op_id: u32, t: u64)
    requires
        is_admin(m, invoker),
    ensures
        execute_error(
            FactoryModel { pending_ops: m.pending_ops.remove(op_id), ..m },
            invoker,
            t,
            op_id,
        ) == Some(ContractError::NoPendingOp),
{
}

/// An operation takes effect once: executing it again is refused with
/// `NoPendingOp`.
pub proof fn lemma_executed_op_is_gone(m: FactoryModel, invoker: Seq<char>, op_id: u32, t: u64)
    requires
        is_admin(m, invoker),
        m.pending_ops.contains_key(op_id),
    ensures
        execute_error(
            FactoryModel {
                pending_ops: m.pending_ops.remove(op_id),
                ..applied(m, m.pending_ops[op_id].op)
            },
            invoker,
            t,
            op_id,
        ) == Some(ContractError::NoPendingOp),
{
}

/// Every assigned stable id is below the next one.
pub open spec fn ids_below_next(m: FactoryModel) -> bool {
    forall|id: u32| #[trigger] m.raffle_by_id.contains_key(id) ==> id < m.next_raffle_id
}

/// A new raffle gets a stable id no raffle holds, the raffles registered
/// before keep their ids, and ids stay below the next one.
pub proof fn lemma_stable_ids_fresh(
    m: FactoryModel,
    creator: Address,
    category: Option<String>,
    raffle: Address,
    now: u64,
    ledger_sequence: u32,
)
    requires
        ids_below_next(m),
        m.next_raffle_id < u32::MAX,
    ensures
        !m.raffle_by_id.contains_key(m.next_raffle_id),
        forall|id: u32| #[trigger]
            m.raffle_by_id.contains_key(id) ==> registered(
                m,
                creator,
                category,
                raffle,
                now,
                ledger_sequence,
            ).raffle_by_id.contains_key(id) && registered(
                m,
                creator,
                category,
                raffle,
                now,
                ledger_sequence,
            ).raffle_by_id[id] == m.raffle_by_id[id],
        ids_below_next(registered(m, creator, category, raffle, now, ledger_sequence)),
{
}

/// A cleaned-up stable id is never reused: the next registration leaves it
/// empty, and the other raffles keep their ids.
pub proof fn lemma_cleaned_id_stays_retired(
    m: FactoryModel,
    raffle_id: u32,
    creator: Address,
    category: Option<String>,
    raffle: Address,
    now: u64,
    ledger_sequence: u32,
)
    requires
        ids_below_next(m),
        m.raffle_by_id.contains_key(raffle_id),
        m.next_raffle_id < u32::MAX,
    ensures
        ids_below_next(cleaned(m, raffle_id)),
        !registered(
            cleaned(m, raffle_id),
            creator,
            category,
            raffle,
            now,
            ledger_sequence,
        ).raffle_by_id.contains_key(raffle_id),
        forall|id: u32|
            id != raffle_id && #[trigger] m.raffle_by_id.contains_key(id) ==> cleaned(
                m,
                raffle_id,
            ).raffle_by_id.contains_key(id) && cleaned(m, raffle_id).raffle_by_id[id]
                == m.raffle_by_id[id],
{
}

/// The live count is the number of raffles that hold a stable id.
pub open spec fn live_count_matches(m: FactoryModel) -> bool {
    &&& m.raffle_by_id.dom().finite()
    &&& m.raffle_count == m.raffle_by_id.dom().len()
}

/// Registering and cleaning up keep the live count equal to the number of
/// raffles that hold a stable id, so the `total` of a page of raffles is
/// the number of live raffles.
pub proof fn lemma_live_count(
    m: FactoryModel,
    raffle_id: u32,
    creator: Address,
    category: Option<String>,
    raffle: Address,
    now: u64,
    ledger_sequence: u32,
)
    requires
        ids_below_next(m),
        live_count_matches(m),
        m.next_raffle_id < u32::MAX,
        m.raffle_count < u32::MAX,
    ensures
        live_count_matches(registered(m, creator, category, raffle, now, ledger_sequence)),
        m.raffle_by_id.contains_key(raffle_id) ==> live_count_matches(cleaned(m, raffle_id)),
{
    assert(!m.raffle_by_id.contains_key(m.next_raffle_id));
    assert(registered(m, creator, category, raffle, now, ledger_sequence).raffle_by_id.dom()
        == m.raffle_by_id.dom().insert(m.next_raffle_id));
    if m.raffle_by_id.contains_key(raffle_id) {
        assert(cleaned(m, raffle_id).raffle_by_id.dom() == m.raffle_by_id.dom().remove(raffle_id));
    }
}

/// The admin changes only through the two-step transfer: once a new admin
/// is proposed, only the proposed address may accept, and accepting makes
/// it the admin.
pub proof fn lemma_two_step_transfer(m: FactoryModel, proposed: Address, other: Seq<char>)
    requires
        m.admin is Some,
        other != proposed@,
    ensures
        accept_error(FactoryModel { pending_admin: Some(proposed), ..m }, proposed@) is None,
        accept_error(FactoryModel { pending_admin: Some(proposed), ..m }, other) == Some(
            ContractError::NotAuthorized,
        ),
        is_admin(
            FactoryModel { admin: Some(proposed), pending_admin: None, ..m },
            proposed@,
        ),
{
}

/// While the factory is paused, nothing creates a raffle: requests for a
/// raffle, for a recurring schedule and for a due round are all refused.
pub proof fn lemma_pause_blocks_creation(
    m: FactoryModel,
    creator: Seq<char>,
    now: u64,
    config: crate::types::RecurringRaffleConfig,
    recurring_id: u32,
)
    requires
        m.paused,
    ensures
        create_error(m, creator, creator, now) == Some(ContractError::ContractPaused),
        recurring_create_error(m, creator, creator, config) == Some(ContractError::ContractPaused),
        trigger_error(m, now, recurring_id) == Some(ContractError::ContractPaused),
{
}

/// A creator who is not a whitelisted partner and has just created a
/// raffle at `now` is refused another until the creation delay has
/// passed; a whitelisted partner is never rate-limited.
pub proof fn lemma_rate_limit(
    m: FactoryModel,
    creator: Address,
    category: Option<String>,
    raffle: Address,
    now: u64,
    ledger_sequence: u32,
    t: u64,
)
    requires
        create_gate_error(m, creator@, creator@) is None,
        deploy_error(m) is None,
        now <= t < now + m.min_creation_delay,
    ensures
        !is_whitelisted(m, creator@) ==> create_error(
            credited(
                registered(after_rate_limit(m, creator@, now), creator, category, raffle, now, ledger_sequence),
                creator@,
                now,
            ),
            creator@,
            creator@,
            t,
        ) == Some(ContractError::RateLimitExceeded),
        is_whitelisted(m, creator@) ==> create_error(
            credited(
                registered(after_rate_limit(m, creator@, now), creator, category, raffle, now, ledger_sequence),
                creator@,
                now,
            ),
            creator@,
            creator@,
            t,
        ) is None,
{
}

/// Counting a participant twice counts it once, and the count stays equal
/// to the number of participants counted.
pub proof fn lemma_participants_counted_once(m: FactoryModel, p: Seq<char>)
    requires
        m.unique_participants.dom().finite(),
        m.total_unique_participants == m.unique_participants.dom().len(),
        m.unique_participants.contains_key(p) || m.total_unique_participants < u32::MAX,
    ensures
        with_participant(with_participant(m, p), p) == with_participant(m, p),
        with_participant(m, p).unique_participants.dom().finite(),
        with_participant(m, p).total_unique_participants == with_participant(
            m,
            p,
        ).unique_participants.dom().len(),
{
}

/// Recorded volumes add up.
pub proof fn lemma_volume_accumulates(m: FactoryModel, asset: Seq<char>, a: i128, b: i128)
    requires
        volume_fits(m, asset, a),
        volume_fits(with_volume(m, asset, a), asset, b),
    ensures
        volume_of(with_volume(with_volume(m, asset, a), asset, b), asset) == volume_of(m, asset) + a
            + b,
{
}


/// A page never holds more than the effective limit, hence never more than
/// `MAX_PAGE_LIMIT` items; and two consecutive pages of one limit read the
/// list without gap or overlap.
pub proof fn lemma_pages_tile(list: Seq<Address>, params: PaginationParams)
    requires
        params.offset + spec_effective_limit(params.limit) <= u32::MAX,
        list.len() <= u32::MAX,
    ensures
        page_of(list, params).len() <= spec_effective_limit(params.limit) <= MAX_PAGE_LIMIT,
        params.offset < list.len() ==> page_of(list, params) + page_of(
            list,
            PaginationParams {
                limit: params.limit,
                offset: (params.offset + spec_effective_limit(params.limit)) as u32,
            },
        ) == list.subrange(
            params.offset as int,
            if params.offset + 2 * spec_effective_limit(params.limit) < list.len() {
                params.offset + 2 * spec_effective_limit(params.limit)
            } else {
                list.len() as int
            },
        ),
{
    let lim = spec_effective_limit(params.limit);
    let o = params.offset as int;
    let n = list.len() as int;
    let next = PaginationParams { limit: params.limit, offset: (params.offset + lim) as u32 };
    if o < n {
        if o + lim >= n {
            assert(page_of(list, params) == list.subrange(o, n));
            assert(page_of(list, next) == Seq::<Address>::empty());
            assert(page_of(list, params) + page_of(list, next) =~= list.subrange(o, n));
        } else {
            let e2 = if o + 2 * lim < n {
                o + 2 * lim
            } else {
                n
            };
            assert(page_of(list, params) == list.subrange(o, o + lim));
            assert(page_of(list, next) == list.subrange(o + lim, e2));
            assert(list.subrange(o, o + lim) + list.subrange(o + lim, e2) =~= list.subrange(o, e2));
        }
    }
}

/// Whitelisting keeps the partner list free of repeats: a partner listed
/// twice is listed once, and one taken off is no longer listed.
pub proof fn lemma_partner_list(ps: Seq<Address>, partner: Address, status: bool)
    requires
        no_repeats(ps),
    ensures
        no_repeats(partners_after(ps, partner, status)),
        partners_after(partners_after(ps, partner, true), partner, true) == partners_after(
            ps,
            partner,
            true,
        ),
        listed(partners_after(ps, partner, true), partner@),
        !listed(partners_after(ps, partner, false), partner@),
{
    let who = partner@;
    if listed(ps, who) {
        let i = choose|i: int| 0 <= i < ps.len() && #[trigger] ps[i]@ == who;
        assert(first_at(ps, who, i)) by {
            assert forall|j: int| 0 <= j < i implies #[trigger] ps[j]@ != who by {
                assert(ps[j]@ != ps[i]@);
            }
        }
        let k = position(ps, who);
        assert(first_at(ps, who, k));
        if k != i {
            if k < i {
                assert(ps[k]@ != ps[i]@);
            } else {
                assert(ps[i]@ != ps[k]@);
            }
        }
        let q = ps.remove(k);
        assert forall|a: int, b: int| 0 <= a < b < q.len() implies #[trigger] q[a]@ != #[trigger] q[b]@ by {
            let a0 = if a < k {
                a
            } else {
                a + 1
            };
            let b0 = if b < k {
                b
            } else {
                b + 1
            };
            assert(q[a] == ps[a0]);
            assert(q[b] == ps[b0]);
            assert(ps[a0]@ != ps[b0]@);
        }
        assert(!listed(q, who)) by {
            if listed(q, who) {
                let c = choose|c: int| 0 <= c < q.len() && #[trigger] q[c]@ == who;
                let c0 = if c < k {
                    c
                } else {
                    c + 1
                };
                assert(q[c] == ps[c0]);
                if c0 < k {
                    assert(ps[c0]@ != ps[k]@);
                } else {
                    assert(ps[k]@ != ps[c0]@);
                }
            }
        }
    } else {
        let q = ps.push(partner);
        assert(q[ps.len() as int]@ == who);
        assert(listed(q, who));
        assert forall|a: int, b: int| 0 <= a < b < q.len() implies #[trigger] q[a]@ != #[trigger] q[b]@ by {
            if b == ps.len() {
                if ps[a]@ == who {
                    assert(listed(ps, who));
                }
            } else {
                assert(ps[a]@ != ps[b]@);
            }
        }
    }
}

/// A recurring schedule with a round cap (`max_rounds > 0`) that has run
/// `max_rounds` rounds is refused its next round with `MaxRoundsReached`
/// once the pause, existence, active and due checks pass, whatever its
/// `auto_fund` flag; a schedule below its cap, or without one, is never
/// refused for the cap.
pub proof fn lemma_round_cap(m: FactoryModel, now: u64, id: u32)
    requires
        !m.paused,
        m.recurring.contains_key(id),
        m.recurring[id].active,
        now >= m.recurring[id].next_due,
    ensures
        m.recurring[id].config.max_rounds > 0 && m.recurring[id].current_round
            >= m.recurring[id].config.max_rounds ==> trigger_error(m, now, id) == Some(
            ContractError::MaxRoundsReached,
        ),
        m.recurring[id].config.max_rounds == 0 || m.recurring[id].current_round
            < m.recurring[id].config.max_rounds ==> trigger_error(m, now, id) != Some(
            ContractError::MaxRoundsReached,
        ),
{
}

/// Registering a round counts exactly one more round for its schedule, due
/// one interval later, and leaves the schedule's configuration, creator
/// and activity as they were; other schedules are untouched.
pub proof fn lemma_round_advances(
    m: FactoryModel,
    id: u32,
    other: u32,
    raffle: Address,
    now: u64,
    ledger_sequence: u32,
)
    requires
        m.recurring.contains_key(id),
    ensures
        ({
            let after = round_registered(m, id, raffle, now, ledger_sequence).recurring;
            &&& after.contains_key(id)
            &&& after[id].current_round == sat_inc(m.recurring[id].current_round)
            &&& after[id].config == m.recurring[id].config
            &&& after[id].creator == m.recurring[id].creator
            &&& after[id].active == m.recurring[id].active
            &&& after[id].next_due == sat_add_u64(now, m.recurring[id].config.interval_seconds)
            &&& (other != id ==> after.contains_key(other) == m.recurring.contains_key(other))
            &&& (other != id && m.recurring.contains_key(other) ==> after[other] == m.recurring[other])
        }),
{
}

/// `has_more` says exactly whether the list has entries past the returned
/// window: with `n` entries (or stable ids), the window ends at
/// `min(offset + effective_limit, n)`, and there is more exactly when the
/// offset is inside the list and the window ends before `n`. In
/// particular a page whose window reaches the end reports no more.
pub proof fn lemma_has_more_exact(list: Seq<Address>, n: int, params: PaginationParams)
    requires
        0 <= n <= u32::MAX,
        list.len() <= u32::MAX,
    ensures
        more_after(n, params) == (params.offset < n && (if params.offset + spec_effective_limit(
            params.limit,
        ) < n {
            params.offset + spec_effective_limit(params.limit)
        } else {
            n
        }) < n),
        more_after(list.len() as int, params) == (params.offset < list.len() && params.offset
            + page_of(list, params).len() < list.len()),
{
}

/// The rate limit is per creator: recording a creation by `a` (and the
/// registration and crediting that follow it) never changes whether a
/// different creator `b` may create, nor why it is refused.
pub proof fn lemma_rate_limit_per_creator(
    m: FactoryModel,
    a: Address,
    b: Seq<char>,
    category: Option<String>,
    raffle: Address,
    now: u64,
    ledger_sequence: u32,
    t: u64,
)
    requires
        a@ != b,
    ensures
        create_error(after_rate_limit(m, a@, now), b, b, t) == create_error(m, b, b, t),
        create_error(
            credited(registered(after_rate_limit(m, a@, now), a, category, raffle, now, ledger_sequence), a@, now),
            b,
            b,
            t,
        ) == create_error(m, b, b, t),
{
}

/// A byte string made of the seeds' big-endian blocks, in order, is the
/// one the quorum seed hashes.
proof fn lemma_blocks_are_seed_bytes(seeds: Seq<(Address, u64)>, bytes: Seq<u8>)
    requires
        bytes.len() == 8 * seeds.len(),
        forall|i: int|
            0 <= i < seeds.len() ==> bytes.subrange(8 * i, 8 * i + 8) == be_u64(#[trigger] seeds[i].1),
    ensures
        bytes == seed_bytes(seeds),
    decreases seeds.len(),
{
    if seeds.len() == 0 {
        assert(bytes =~= Seq::<u8>::empty());
    } else {
        let n = seeds.len() as int;
        let init = seeds.drop_last();
        let pre = bytes.subrange(0, 8 * (n - 1));
        assert forall|i: int| 0 <= i < init.len() implies pre.subrange(8 * i, 8 * i + 8) == be_u64(
            #[trigger] init[i].1,
        ) by {
            assert(init[i] == seeds[i]);
            assert(pre.subrange(8 * i, 8 * i + 8) =~= bytes.subrange(8 * i, 8 * i + 8));
        }
        lemma_blocks_are_seed_bytes(init, pre);
        assert(seeds[n - 1] == seeds.last());
        assert(bytes.subrange(8 * (n - 1), 8 * (n - 1) + 8) == be_u64(seeds[n - 1].1));
        assert(bytes =~= pre + bytes.subrange(8 * (n - 1), 8 * (n - 1) + 8));
    }
}

/// The aggregated seed hashes every delivered seed: for a non-empty list,
/// it is the first eight bytes, read big-endian, of the SHA-256 of any
/// byte string of length `8 * seeds.len()` whose bytes `[8i, 8i + 8)` are
/// the big-endian bytes of the `i`-th seed, for every `i`.
pub proof fn lemma_quorum_seed_hashes_every_seed(seeds: Seq<(Address, u64)>, bytes: Seq<u8>)
    requires
        seeds.len() > 0,
        bytes.len() == 8 * seeds.len(),
        forall|i: int|
            0 <= i < seeds.len() ==> bytes.subrange(8 * i, 8 * i + 8) == be_u64(#[trigger] seeds[i].1),
    ensures
        quorum_seed(seeds) == u64_from_be(sha256_of(bytes)@),
{
    lemma_blocks_are_seed_bytes(seeds, bytes);
}

/// Every registration credits its creator's profile with exactly one more
/// raffle (saturating), whether or not the creator is a whitelisted
/// partner, keeps its name and badge, and leaves every other profile as it
/// was.
pub proof fn lemma_registration_credits_profile(
    m: FactoryModel,
    creator: Address,
    category: Option<String>,
    raffle: Address,
    now: u64,
    ledger_sequence: u32,
    other: Seq<char>,
)
    ensures
        ({
            let after = credited(
                registered(m, creator, category, raffle, now, ledger_sequence),
                creator@,
                now,
            ).profiles;
            &&& after.contains_key(creator@)
            &&& after[creator@].raffles_created == if m.profiles.contains_key(creator@) {
                sat_inc(m.profiles[creator@].raffles_created)
            } else {
                1
            }
            &&& m.profiles.contains_key(creator@) ==> after[creator@].name == m.profiles[creator@].name
                && after[creator@].verified == m.profiles[creator@].verified
            &&& !m.profiles.contains_key(creator@) ==> after[creator@].name == Seq::<char>::empty()
                && !after[creator@].verified
            &&& (other != creator@ ==> after.contains_key(other) == m.profiles.contains_key(other))
            &&& (other != creator@ && m.profiles.contains_key(other) ==> after[other]
                == m.profiles[other])
        }),
{
}

} // verus!
