//! The linear congruential generator that advances a draw seed, and the
//! number theory that shows its orbit visits every 64-bit value.
//!
//! `next(x) = (6364136223846793005 * x + 1442695040888963407) mod 2^64`.
//! The multiplier is 1 modulo 4 and the increment is odd, so the generator
//! has a single cycle through all 2^64 states. The winner selector relies on
//! this to know that rejection sampling always ends.
use vstd::arithmetic::div_mod::*;
use vstd::arithmetic::power2::*;
use vstd::prelude::*;
use vstd::relations::injective_on;
use vstd::set_lib::*;

verus! {

/// Multiplier of the generator.
pub const LCG_MULTIPLIER: u64 = 6364136223846793005;

/// Increment of the generator.
pub const LCG_INCREMENT: u64 = 1442695040888963407;

/// 2^64, the modulus of the generator.
pub open spec fn word() -> int {
    0x1_0000_0000_0000_0000
}

/// One step of the generator on a mathematical integer.
#[verifier::opaque]
pub open spec fn lcg_next(x: int) -> int {
    (LCG_MULTIPLIER * x + LCG_INCREMENT) % word()
}

/// `k` steps of the generator.
pub open spec fn lcg_iter(x: int, k: nat) -> int
    decreases k,
{
    if k == 0 {
        x
    } else {
        lcg_next(lcg_iter(x, (k - 1) as nat))
    }
}

/// `q` copies of `m`.
pub open spec fn scaled(q: int, m: int) -> int {
    q * m
}

/// `m` divides `x`.
pub open spec fn divides(m: int, x: int) -> bool {
    exists|q: int| x == #[trigger] scaled(q, m)
}

/// `LCG_MULTIPLIER` to the power `t`.
pub open spec fn mpow(t: nat) -> int
    decreases t,
{
    if t == 0 {
        1
    } else {
        LCG_MULTIPLIER * mpow((t - 1) as nat)
    }
}

/// `1 + a + a^2 + ... + a^(t-1)` for `a = LCG_MULTIPLIER`.
pub open spec fn geo(t: nat) -> int
    decreases t,
{
    if t == 0 {
        0
    } else {
        LCG_MULTIPLIER * geo((t - 1) as nat) + 1
    }
}

/// The exponent of 2 in `t` (0 for odd `t`).
pub open spec fn val2(t: nat) -> nat
    decreases t,
{
    if t == 0 || t % 2 == 1 {
        0
    } else {
        1 + val2(t / 2)
    }
}

/// One step of the generator on a `u64`, with the wrapping arithmetic the
/// selector uses.
pub fn lcg_step(x: u64) -> (r: u64)
    ensures
        r == lcg_next(x as int),
{
    reveal(lcg_next);
    let p = x.wrapping_mul(LCG_MULTIPLIER);
    let r = p.wrapping_add(LCG_INCREMENT);
    proof {
        let m = word();
        let prod = x as int * LCG_MULTIPLIER as int;
        assert(p as int == prod % m);
        lemma_mod_bound(prod, m);
        lemma_small_mod(LCG_INCREMENT as nat, m as nat);
        lemma_add_mod_noop(prod, LCG_INCREMENT as int, m);
        if p as int + LCG_INCREMENT as int >= m {
            lemma_fundamental_div_mod_converse_mod(
                p as int + LCG_INCREMENT as int,
                m,
                1,
                p as int + LCG_INCREMENT as int - m,
            );
        } else {
            lemma_small_mod((p as int + LCG_INCREMENT as int) as nat, m as nat);
        }
        assert(prod == LCG_MULTIPLIER * x) by (nonlinear_arith)
            requires
                prod == x as int * LCG_MULTIPLIER as int,
        ;
    }
    r
}

pub proof fn lemma_mpow_odd(t: nat)
    ensures
        mpow(t) % 4 == 1,
        mpow(t) > 0,
    decreases t,
{
    if t > 0 {
        lemma_mpow_odd((t - 1) as nat);
        let p = mpow((t - 1) as nat);
        let q = p / 4;
        lemma_fundamental_div_mod(p, 4);
        assert(p == 4 * q + 1);
        assert(LCG_MULTIPLIER * p == 4 * (LCG_MULTIPLIER * q + 1591034055961698251) + 1)
            by (nonlinear_arith)
            requires
                p == 4 * q + 1,
        ;
        lemma_fundamental_div_mod_converse_mod(
            LCG_MULTIPLIER * p,
            4,
            LCG_MULTIPLIER * q + 1591034055961698251,
            1,
        );
        assert(LCG_MULTIPLIER * p > 0) by (nonlinear_arith)
            requires
                p > 0,
        ;
    }
}

/// `a^t - 1 == (a - 1) * geo(t)`.
pub proof fn lemma_mpow_minus_one(t: nat)
    ensures
        mpow(t) - 1 == (LCG_MULTIPLIER - 1) * geo(t),
    decreases t,
{
    if t > 0 {
        lemma_mpow_minus_one((t - 1) as nat);
        let p = mpow((t - 1) as nat);
        let s = geo((t - 1) as nat);
        assert(LCG_MULTIPLIER * p - 1 == (LCG_MULTIPLIER - 1) * (LCG_MULTIPLIER * s + 1))
            by (nonlinear_arith)
            requires
                p - 1 == (LCG_MULTIPLIER - 1) * s,
        ;
    }
}

/// Splitting a run of `a + b` steps.
pub proof fn lemma_geo_split(a: nat, b: nat)
    ensures
        geo(a + b) == geo(a) + mpow(a) * geo(b),
        mpow(a + b) == mpow(a) * mpow(b),
    decreases b,
{
    if b > 0 {
        lemma_geo_split(a, (b - 1) as nat);
        let sa = geo(a);
        let pa = mpow(a);
        let sb = geo((b - 1) as nat);
        let pb = mpow((b - 1) as nat);
        let sab = geo((a + b - 1) as nat);
        let pab = mpow((a + b - 1) as nat);
        lemma_mpow_minus_one(a);
        assert(geo(a + b) == LCG_MULTIPLIER * sab + 1);
        assert(mpow(a + b) == LCG_MULTIPLIER * pab);
        assert(LCG_MULTIPLIER * sab + 1 == sa + pa * (LCG_MULTIPLIER * sb + 1)
            && LCG_MULTIPLIER * pab == pa * (LCG_MULTIPLIER * pb)) by (nonlinear_arith)
            requires
                sab == sa + pa * sb,
                pab == pa * pb,
                pa - 1 == (LCG_MULTIPLIER - 1) * sa,
        {
        }
    }
}

/// Closed form of iteration.
pub proof fn lemma_iter_closed(x: int, k: nat)
    requires
        0 <= x < word(),
    ensures
        lcg_iter(x, k) == (mpow(k) * x + LCG_INCREMENT * geo(k)) % word(),
        0 <= lcg_iter(x, k) < word(),
    decreases k,
{
    let m = word();
    reveal(lcg_next);
    if k == 0 {
        lemma_small_mod(x as nat, m as nat);
    } else {
        lemma_iter_closed(x, (k - 1) as nat);
        let z = mpow((k - 1) as nat) * x + LCG_INCREMENT * geo((k - 1) as nat);
        let prev = lcg_iter(x, (k - 1) as nat);
        assert(prev == z % m);
        lemma_mul_mod_noop_right(LCG_MULTIPLIER as int, z, m);
        lemma_add_mod_noop(LCG_MULTIPLIER * (z % m), LCG_INCREMENT as int, m);
        lemma_add_mod_noop(LCG_MULTIPLIER * z, LCG_INCREMENT as int, m);
        assert(LCG_MULTIPLIER * z + LCG_INCREMENT == mpow(k) * x + LCG_INCREMENT * geo(k))
            by (nonlinear_arith)
            requires
                z == mpow((k - 1) as nat) * x + LCG_INCREMENT * geo((k - 1) as nat),
                mpow(k) == LCG_MULTIPLIER * mpow((k - 1) as nat),
                geo(k) == LCG_MULTIPLIER * geo((k - 1) as nat) + 1,
        ;
        lemma_mod_bound(mpow(k) * x + LCG_INCREMENT * geo(k), m);
    }
}

} // verus!
