//! Mapping a 64-bit draw seed to winning ticket indices.
//!
//! A sample is accepted only when it lies below the largest multiple of the
//! ticket count that fits in a `u64`, so every ticket index has the same
//! number of accepted samples. Rejected samples, and samples that name an
//! already-drawn ticket, advance the seed with the generator of `lcg`.
use crate::lcg::{lcg_iter, lcg_next, lcg_step, word};
use crate::orbit::{lemma_iter_shift, lemma_orbit_covers};
use crate::sdk::{sdk_u32_items, sdk_vec_new, sdk_vec_push_back};
use vstd::arithmetic::div_mod::*;
use vstd::arithmetic::mul::*;
use vstd::prelude::*;
use vstd::relations::injective_on;
use vstd::set_lib::*;

verus! {

/// The largest multiple of `n` that fits in a `u64`; samples at or above it
/// are rejected.
pub open spec fn acceptance_bound(n: int) -> int {
    (u64::MAX as int / n) * n
}

/// States below the acceptance bound.
pub open spec fn below(bound: int) -> spec_fn(int) -> bool {
    |y: int| y < bound
}

/// Accepted states whose ticket index has not been drawn yet.
pub open spec fn fresh_below(bound: int, n: int, drawn: Seq<u32>) -> spec_fn(int) -> bool {
    |y: int| y < bound && !drawn.contains((y % n) as u32)
}

/// `k` is the first step at which the orbit of `x` satisfies `good`.
pub open spec fn is_first_hit(x: int, good: spec_fn(int) -> bool, k: nat) -> bool {
    &&& good(lcg_iter(x, k))
    &&& forall|j: nat| j < k ==> !good(#[trigger] lcg_iter(x, j))
}

/// Some state of the orbit of `x` satisfies `good`.
pub open spec fn reaches(x: int, good: spec_fn(int) -> bool) -> bool {
    exists|k: nat| good(#[trigger] lcg_iter(x, k))
}

/// The number of generator steps from `x` to the first state that satisfies
/// `good`.
pub open spec fn first_hit(x: int, good: spec_fn(int) -> bool) -> nat {
    choose|k: nat| is_first_hit(x, good, k)
}

/// The state at which rejection sampling from `x` stops.
pub open spec fn accept_from(x: int, n: int) -> int {
    lcg_iter(x, first_hit(x, below(acceptance_bound(n))))
}

/// Indices drawn with repetition allowed, and the seed left afterwards.
pub open spec fn draws_with_repeats(seed: int, n: int, count: nat) -> (Seq<u32>, int)
    decreases count,
{
    if count == 0 {
        (Seq::empty(), seed)
    } else {
        let (prev, state) = draws_with_repeats(seed, n, (count - 1) as nat);
        let hit = accept_from(state, n);
        (prev.push((hit % n) as u32), lcg_next(hit))
    }
}

/// Pairwise distinct indices, and the seed left afterwards.
pub open spec fn distinct_draws(seed: int, n: int, count: nat) -> (Seq<u32>, int)
    decreases count,
{
    if count == 0 {
        (Seq::empty(), seed)
    } else {
        let (prev, state) = distinct_draws(seed, n, (count - 1) as nat);
        let hit = lcg_iter(state, first_hit(state, fresh_below(acceptance_bound(n), n, prev)));
        (prev.push((hit % n) as u32), lcg_next(hit))
    }
}

proof fn lemma_least_hit(x: int, good: spec_fn(int) -> bool, k: nat)
    requires
        good(lcg_iter(x, k)),
    ensures
        exists|m: nat| m <= k && is_first_hit(x, good, m),
    decreases k,
{
    if exists|j: nat| j < k && good(#[trigger] lcg_iter(x, j)) {
        let j = choose|j: nat| j < k && good(#[trigger] lcg_iter(x, j));
        lemma_least_hit(x, good, j);
    } else {
        assert(is_first_hit(x, good, k));
    }
}

proof fn lemma_first_hit_unique(x: int, good: spec_fn(int) -> bool, a: nat, b: nat)
    requires
        is_first_hit(x, good, a),
        is_first_hit(x, good, b),
    ensures
        a == b,
{
    if a < b {
        assert(!good(lcg_iter(x, a)));
    } else if b < a {
        assert(!good(lcg_iter(x, b)));
    }
}

/// The first hit exists and is unique whenever the orbit reaches `good`.
pub proof fn lemma_first_hit(x: int, good: spec_fn(int) -> bool)
    requires
        reaches(x, good),
    ensures
        is_first_hit(x, good, first_hit(x, good)),
        forall|k: nat| is_first_hit(x, good, k) ==> k == first_hit(x, good),
{
    let k = choose|k: nat| good(#[trigger] lcg_iter(x, k));
    lemma_least_hit(x, good, k);
    assert forall|m: nat| is_first_hit(x, good, m) implies m == first_hit(x, good) by {
        lemma_first_hit_unique(x, good, m, first_hit(x, good));
    }
}

/// Stepping past a state that is not good brings the first hit one closer.
proof fn lemma_hit_step(x: int, good: spec_fn(int) -> bool)
    requires
        reaches(x, good),
        !good(x),
    ensures
        reaches(lcg_next(x), good),
        first_hit(lcg_next(x), good) + 1 == first_hit(x, good),
{
    lemma_first_hit(x, good);
    let f = first_hit(x, good);
    assert(lcg_iter(x, 0) == x);
    assert(f > 0);
    let g = (f - 1) as nat;
    lemma_iter_shift(x, g);
    assert(g + 1 == f);
    assert forall|j: nat| j < g implies !good(#[trigger] lcg_iter(lcg_next(x), j)) by {
        lemma_iter_shift(x, j);
    }
    assert(is_first_hit(lcg_next(x), good, g));
    lemma_first_hit(lcg_next(x), good);
}

/// The bound is a positive multiple of `n`, at least `n`, and exceeds
/// `u64::MAX - n`.
pub proof fn lemma_acceptance_bound(n: int)
    requires
        1 <= n <= u32::MAX,
    ensures
        n <= acceptance_bound(n) <= u64::MAX,
        acceptance_bound(n) > u64::MAX - n,
        acceptance_bound(n) % n == 0,
{
    let q = u64::MAX as int / n;
    lemma_fundamental_div_mod(u64::MAX as int, n);
    lemma_mod_bound(u64::MAX as int, n);
    lemma_mod_multiples_basic(q, n);
    lemma_mul_is_commutative(q, n);
    assert(q >= 1) by {
        if q <= 0 {
            lemma_mul_inequality(q, 0, n);
        }
    }
    lemma_mul_inequality(1, q, n);
}

/// The accepted samples with residue `r`.
pub open spec fn accepted_with_index(n: int, r: int) -> Set<int> {
    Set::new(|x: int| 0 <= x < acceptance_bound(n) && x % n == r)
}

/// Each ticket index is the residue of exactly `acceptance_bound(n) / n`
/// accepted samples, so rejection sampling favours no ticket.
pub proof fn lemma_accepted_samples_uniform(n: int, r: int)
    requires
        1 <= n <= u32::MAX,
        0 <= r < n,
    ensures
        accepted_with_index(n, r).finite(),
        accepted_with_index(n, r).len() == acceptance_bound(n) / n,
{
    lemma_acceptance_bound(n);
    let q = u64::MAX as int / n;
    let bound = acceptance_bound(n);
    lemma_div_multiples_vanish(q, n);
    lemma_mul_is_commutative(q, n);
    assert(bound / n == q);
    let base = set_int_range(0, q);
    lemma_int_range(0, q);
    let g = |i: int| i * n + r;
    let target = accepted_with_index(n, r);
    assert(injective_on(g, base)) by {
        assert forall|a: int, b: int|
            base.contains(a) && base.contains(b) && #[trigger] g(a) == #[trigger] g(b) implies a
            == b by {
            lemma_mul_equality_converse(n, a, b);
            lemma_mul_is_commutative(n, a);
            lemma_mul_is_commutative(n, b);
        }
    }
    assert(base.map(g) =~= target) by {
        assert forall|x: int| base.map(g).contains(x) implies target.contains(x) by {
            let i = choose|i: int| base.contains(i) && g(i) == x;
            lemma_fundamental_div_mod_converse_mod(x, n, i, r);
            lemma_mul_inequality(i + 1, q, n);
            lemma_mul_is_distributive_add_other_way(n, i, 1);
            lemma_mul_is_commutative(n, i);
            lemma_mul_is_commutative(n, i + 1);
        }
        assert forall|x: int| target.contains(x) implies base.map(g).contains(x) by {
            let i = x / n;
            lemma_fundamental_div_mod(x, n);
            lemma_mul_is_commutative(n, i);
            lemma_div_pos_is_pos(x, n);
            if i >= q {
                lemma_mul_inequality(q, i, n);
                assert(false);
            }
            assert(base.contains(i));
            assert(g(i) == x);
        }
    }
    lemma_map_size(base, target, g);
}

/// Rejection sampling always stops: from any 64-bit state, the orbit reaches
/// an accepted state.
proof fn lemma_accept_reachable(x: int, n: int)
    requires
        0 <= x < word(),
        1 <= n <= u32::MAX,
    ensures
        reaches(x, below(acceptance_bound(n))),
{
    lemma_acceptance_bound(n);
    lemma_orbit_covers(x, 0);
    let k = choose|k: nat| k < word() && lcg_iter(x, k) == 0;
    assert(below(acceptance_bound(n))(lcg_iter(x, k)));
}

/// While fewer than `n` indices are drawn, some accepted state names a new
/// index.
proof fn lemma_fresh_reachable(x: int, n: int, drawn: Seq<u32>)
    requires
        0 <= x < word(),
        1 <= n <= u32::MAX,
        drawn.len() < n,
    ensures
        reaches(x, fresh_below(acceptance_bound(n), n, drawn)),
{
    lemma_acceptance_bound(n);
    assert(exists|r: u32| r < n && !#[trigger] drawn.contains(r)) by {
        if forall|r: u32| r < n ==> #[trigger] drawn.contains(r) {
            let range = set_int_range(0, n);
            let f = |v: u32| v as int;
            lemma_int_range(0, n);
            let image = drawn.to_set().map(f);
            drawn.lemma_cardinality_of_set();
            lemma_map_size_bound(drawn.to_set(), image, f);
            assert(range.subset_of(image)) by {
                assert forall|r: int| range.contains(r) implies image.contains(r) by {
                    let ru = r as u32;
                    assert(drawn.contains(ru));
                    assert(drawn.to_set().contains(ru));
                    assert(f(ru) == r);
                }
            }
            lemma_len_subset(range, image);
            assert(false);
        }
    }
    let r = choose|r: u32| r < n && !#[trigger] drawn.contains(r);
    lemma_small_mod(r as nat, n as nat);
    lemma_orbit_covers(x, r as int);
    let k = choose|k: nat| k < word() && lcg_iter(x, k) == r as int;
    assert(fresh_below(acceptance_bound(n), n, drawn)(lcg_iter(x, k)));
}

/// Every state a run of plain draws reaches is a 64-bit state.
proof fn lemma_draws_state_bounds(seed: int, n: int, count: nat)
    requires
        0 <= seed < word(),
        1 <= n <= u32::MAX,
    ensures
        0 <= draws_with_repeats(seed, n, count).1 < word(),
    decreases count,
{
    if count > 0 {
        lemma_draws_state_bounds(seed, n, (count - 1) as nat);
        reveal(lcg_next);
    }
}

/// The winners drawn are plain rejection samples whenever those do not
/// repeat: if the first `count` plain draws (each the next accepted sample,
/// repeats allowed) are pairwise distinct, the distinct draws are exactly
/// them, and leave the same seed.
pub proof fn lemma_selectors_agree(seed: int, n: int, count: nat)
    requires
        0 <= seed < word(),
        1 <= n <= u32::MAX,
        forall|i: int, j: int|
            0 <= i < j < draws_with_repeats(seed, n, count).0.len() ==> #[trigger] draws_with_repeats(
                seed,
                n,
                count,
            ).0[i] != #[trigger] draws_with_repeats(seed, n, count).0[j],
    ensures
        distinct_draws(seed, n, count) == draws_with_repeats(seed, n, count),
    decreases count,
{
    if count > 0 {
        let c1 = (count - 1) as nat;
        let prev = draws_with_repeats(seed, n, c1).0;
        let state = draws_with_repeats(seed, n, c1).1;
        let full = draws_with_repeats(seed, n, count).0;
        let bound = acceptance_bound(n);
        let good = below(bound);
        lemma_draws_state_bounds(seed, n, c1);
        lemma_accept_reachable(state, n);
        lemma_first_hit(state, good);
        let h = first_hit(state, good);
        let hit = lcg_iter(state, h);
        assert(full == prev.push((hit % n) as u32));
        assert forall|i: int, j: int| 0 <= i < j < prev.len() implies #[trigger] prev[i]
            != #[trigger] prev[j] by {
            assert(full[i] == prev[i]);
            assert(full[j] == prev[j]);
        }
        lemma_selectors_agree(seed, n, c1);
        let fresh = fresh_below(bound, n, prev);
        assert(!prev.contains((hit % n) as u32)) by {
            if prev.contains((hit % n) as u32) {
                let i = choose|i: int| 0 <= i < prev.len() && prev[i] == (hit % n) as u32;
                assert(full[i] == full[prev.len() as int]);
            }
        }
        assert(fresh(lcg_iter(state, h)));
        assert(is_first_hit(state, fresh, h)) by {
            assert forall|j: nat| j < h implies !fresh(#[trigger] lcg_iter(state, j)) by {
                assert(!good(lcg_iter(state, j)));
            }
        }
        lemma_first_hit(state, fresh);
    }
}

/// The first winner is always the first accepted sample of the seed.
pub proof fn lemma_first_winner_is_first_sample(seed: int, n: int)
    requires
        0 <= seed < word(),
        1 <= n <= u32::MAX,
    ensures
        distinct_draws(seed, n, 1) == draws_with_repeats(seed, n, 1),
        distinct_draws(seed, n, 1).0 == seq![(accept_from(seed, n) % n) as u32],
{
    assert(draws_with_repeats(seed, n, 0) == (Seq::<u32>::empty(), seed));
    assert(((1 - 1) as nat) == 0nat);
    assert(draws_with_repeats(seed, n, 1).0 =~= Seq::<u32>::empty().push(
        (accept_from(seed, n) % n) as u32,
    ));
    assert(draws_with_repeats(seed, n, 1).0 =~= seq![(accept_from(seed, n) % n) as u32]);
    lemma_selectors_agree(seed, n, 1);
}

/// Draws a winner from a seed.
///
/// The seed is fixed at construction; every call with the same ticket and
/// winner counts yields the same indices.
pub struct OracleSeedWinnerSelection {
    seed: u64,
}

impl View for OracleSeedWinnerSelection {
    type V = u64;

    closed spec fn view(&self) -> u64 {
        self.seed
    }
}

impl OracleSeedWinnerSelection {
    /// Create a new selector seeded with the oracle-provided VRF output.
    pub fn new(seed: u64) -> (selector: Self)
        ensures
            selector@ == seed,
    {
        Self { seed }
    }

    /// Whether `candidate` is among the indices drawn so far.
    fn already_drawn(indices: &std::vec::Vec<u32>, candidate: u32) -> (found: bool)
        ensures
            found == indices@.contains(candidate),
    {
        let mut i: usize = 0;
        while i < indices.len()
            invariant
                i <= indices@.len(),
                forall|j: int| 0 <= j < i ==> indices@[j] != candidate,
            decreases indices@.len() - i,
        {
            if indices[i] == candidate {
                return true;
            }
            i = i + 1;
        }
        false
    }

    /// Advances `state` to the first accepted state of its orbit whose index
    /// has not been drawn.
    fn advance_to_fresh(indices: &std::vec::Vec<u32>, state: u64, n: u64, bound: u64) -> (accepted:
        u64)
        requires
            1 <= n <= u32::MAX,
            bound == acceptance_bound(n as int),
            indices@.len() < n,
        ensures
            accepted as int == lcg_iter(
                state as int,
                first_hit(
                    state as int,
                    fresh_below(bound as int, n as int, indices@),
                ),
            ),
            accepted < bound,
            !indices@.contains((accepted % n) as u32),
    {
        let ghost drawn = indices@;
        let ghost good = fresh_below(bound as int, n as int, drawn);
        let ghost start = state as int;
        let mut cur = state;
        let ghost mut steps: nat = 0;
        proof {
            lemma_fresh_reachable(start, n as int, drawn);
            lemma_first_hit(start, good);
        }
        loop
            invariant
                bound == acceptance_bound(n as int),
                1 <= n <= u32::MAX,
                drawn == indices@,
                good == fresh_below(bound as int, n as int, drawn),
                cur as int == lcg_iter(start, steps),
                reaches(start, good),
                forall|j: nat| j < steps ==> !good(#[trigger] lcg_iter(start, j)),
                reaches(cur as int, good),
                first_hit(cur as int, good) + steps == first_hit(start, good),
            ensures
                good(cur as int),
                cur as int == lcg_iter(start, steps),
                forall|j: nat| j < steps ==> !good(#[trigger] lcg_iter(start, j)),
            decreases first_hit(cur as int, good),
        {
            let ghost entry_steps = steps;
            while cur >= bound
                invariant
                    steps >= entry_steps,
                    bound == acceptance_bound(n as int),
                    good == fresh_below(bound as int, n as int, drawn),
                    cur as int == lcg_iter(start, steps),
                    reaches(start, good),
                    forall|j: nat| j < steps ==> !good(#[trigger] lcg_iter(start, j)),
                    reaches(cur as int, good),
                    first_hit(cur as int, good) + steps == first_hit(start, good),
                decreases first_hit(cur as int, good),
            {
                proof {
                    lemma_hit_step(cur as int, good);
                }
                let next = lcg_step(cur);
                proof {
                    lemma_iter_shift_last(start, steps);
                    steps = steps + 1;
                }
                cur = next;
            }
            let candidate = (cur % n) as u32;
            if !Self::already_drawn(indices, candidate) {
                break ;
            }
            proof {
                lemma_hit_step(cur as int, good);
            }
            let next = lcg_step(cur);
            proof {
                lemma_iter_shift_last(start, steps);
                steps = steps + 1;
            }
            cur = next;
        }
        proof {
            assert(is_first_hit(start, good, steps));
            lemma_first_hit(start, good);
        }
        cur
    }

    /// Select distinct zero-based winner indices from the provided ticket
    /// range, as a std vector; the host-free version of
    /// [`select_winner_indices`](Self::select_winner_indices).
    ///
    /// Draws `min(winner_count, total_tickets)` indices, all different; none
    /// when either count is zero.
    pub fn select_winner_indices_pure(&self, total_tickets: u32, winner_count: u32) -> (indices:
        std::vec::Vec<u32>)
        ensures
            total_tickets == 0 || winner_count == 0 ==> indices@.len() == 0,
            total_tickets > 0 && winner_count > 0 ==> indices@ == distinct_draws(
                self@ as int,
                total_tickets as int,
                (if winner_count < total_tickets { winner_count } else { total_tickets }) as nat,
            ).0,
            total_tickets > 0 ==> indices@.len() == if winner_count < total_tickets {
                winner_count
            } else {
                total_tickets
            },
            forall|i: int| 0 <= i < indices@.len() ==> #[trigger] indices@[i] < total_tickets,
            forall|i: int, j: int| 0 <= i < j < indices@.len() ==> indices@[i] != indices@[j],
    {
        let mut indices: std::vec::Vec<u32> = std::vec::Vec::new();
        if total_tickets == 0 || winner_count == 0 {
            return indices;
        }
        let n = total_tickets as u64;
        proof {
            lemma_acceptance_bound(n as int);
        }
        let largest_multiple = (u64::MAX / n) * n;
        let effective_count = if winner_count < total_tickets {
            winner_count
        } else {
            total_tickets
        };
        let mut current_seed = self.seed;
        let mut drawn: u32 = 0;
        while drawn < effective_count
            invariant
                n == total_tickets,
                1 <= n <= u32::MAX,
                largest_multiple == acceptance_bound(n as int),
                effective_count <= total_tickets,
                drawn <= effective_count,
                (indices@, current_seed as int) == distinct_draws(self@ as int, n as int, drawn as nat),
                indices@.len() == drawn,
                forall|i: int| 0 <= i < indices@.len() ==> #[trigger] indices@[i] < total_tickets,
                forall|i: int, j: int| 0 <= i < j < indices@.len() ==> indices@[i] != indices@[j],
            decreases effective_count - drawn,
        {
            let ghost before = indices@;
            let accepted = Self::advance_to_fresh(&indices, current_seed, n, largest_multiple);
            proof {
                lemma_mod_bound(accepted as int, n as int);
            }
            let idx = (accepted % n) as u32;
            indices.push(idx);
            current_seed = lcg_step(accepted);
            proof {
                assert(((drawn + 1) as nat - 1) as nat == drawn as nat);
                assert forall|i: int, j: int| 0 <= i < j < indices@.len() implies indices@[i]
                    != indices@[j] by {
                    if j == before.len() {
                        assert(before.contains(before[i]));
                    }
                }
            }
            drawn = drawn + 1;
        }
        indices
    }

    /// Select distinct zero-based winner indices from the provided ticket range.
    ///
    /// Draws `min(winner_count, total_tickets)` indices, all different; none
    /// when either count is zero.
    pub fn select_winner_indices(
        &self,
        env: &soroban_sdk::Env,
        total_tickets: u32,
        winner_count: u32,
    ) -> (indices: soroban_sdk::Vec<u32>)
        ensures
            total_tickets == 0 || winner_count == 0 ==> sdk_u32_items(indices).len() == 0,
            total_tickets > 0 && winner_count > 0 ==> sdk_u32_items(indices) == distinct_draws(
                self@ as int,
                total_tickets as int,
                (if winner_count < total_tickets { winner_count } else { total_tickets }) as nat,
            ).0,
            total_tickets > 0 ==> sdk_u32_items(indices).len() == if winner_count < total_tickets {
                winner_count
            } else {
                total_tickets
            },
            forall|i: int|
                0 <= i < sdk_u32_items(indices).len() ==> #[trigger] sdk_u32_items(indices)[i]
                    < total_tickets,
            forall|i: int, j: int|
                0 <= i < j < sdk_u32_items(indices).len() ==> sdk_u32_items(indices)[i]
                    != sdk_u32_items(indices)[j],
    {
        let drawn = self.select_winner_indices_pure(total_tickets, winner_count);
        let mut indices = sdk_vec_new(env);
        let mut i: usize = 0;
        while i < drawn.len()
            invariant
                i <= drawn@.len(),
                drawn@.len() <= total_tickets,
                sdk_u32_items(indices) == drawn@.subrange(0, i as int),
            decreases drawn@.len() - i,
        {
            sdk_vec_push_back(&mut indices, drawn[i]);
            proof {
                assert(drawn@.subrange(0, i + 1) == drawn@.subrange(0, i as int).push(drawn@[i as int]));
            }
            i = i + 1;
        }
        proof {
            assert(drawn@.subrange(0, drawn@.len() as int) == drawn@);
        }
        indices
    }
}

/// Steps `k + 1` of an orbit are one step past step `k`.
proof fn lemma_iter_shift_last(x: int, k: nat)
    ensures
        lcg_iter(x, k + 1) == lcg_next(lcg_iter(x, k)),
{
}

} // verus!
