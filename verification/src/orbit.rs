//! Why the generator's orbit is a single cycle of length 2^64.
use crate::lcg::{divides, geo, lcg_iter, lcg_next, lemma_geo_split, lemma_iter_closed, lemma_mpow_minus_one, lemma_mpow_odd, mpow, scaled, val2, word, LCG_INCREMENT, LCG_MULTIPLIER};
use vstd::arithmetic::div_mod::*;
use vstd::arithmetic::mul::*;
use vstd::arithmetic::power2::*;
use vstd::prelude::*;
use vstd::relations::injective_on;
use vstd::set_lib::*;

verus! {

/// Halving a divisibility by a power of two.
proof fn lemma_halve_divides(a: int, k: nat)
    requires
        k > 0,
        divides(pow2(k) as int, 2 * a),
    ensures
        divides(pow2((k - 1) as nat) as int, a),
{
    lemma_pow2_unfold(k);
    let q = choose|q: int| 2 * a == #[trigger] scaled(q, pow2(k) as int);
    assert(2 * a == q * (2 * pow2((k - 1) as nat)));
    assert(a == q * pow2((k - 1) as nat)) by (nonlinear_arith)
        requires
            2 * a == q * (2 * pow2((k - 1) as nat)),
    ;
    assert(a == scaled(q, pow2((k - 1) as nat) as int));
}

/// An odd factor does not help a product be divisible by a power of two.
proof fn lemma_odd_cancel(u: int, s: int, k: nat)
    requires
        u % 2 == 1,
        divides(pow2(k) as int, u * s),
    ensures
        divides(pow2(k) as int, s),
    decreases k,
{
    reveal(pow2);
    if k == 0 {
        lemma2_to64();
        assert(s == scaled(s, pow2(0) as int));
    } else {
        lemma_pow2_unfold(k);
        let q = choose|q: int| u * s == #[trigger] scaled(q, pow2(k) as int);
        let h = pow2((k - 1) as nat) as int;
        assert(u * s == (q * h) * 2) by (nonlinear_arith)
            requires
                u * s == q * pow2(k),
                pow2(k) == 2 * h,
        ;
        lemma_fundamental_div_mod(u, 2);
        lemma_fundamental_div_mod(s, 2);
        let u2 = u / 2;
        let s2 = s / 2;
        if s % 2 == 1 {
            assert(u * s == 2 * (2 * u2 * s2 + u2 + s2) + 1) by (nonlinear_arith)
                requires
                    u == 2 * u2 + 1,
                    s == 2 * s2 + 1,
            ;
            assert(false) by (nonlinear_arith)
                requires
                    u * s == 2 * (2 * u2 * s2 + u2 + s2) + 1,
                    u * s == (q * h) * 2,
            ;
        }
        lemma_mod_bound(s, 2);
        assert(s == 2 * s2);
        assert(2 * (u * s2) == q * pow2(k)) by (nonlinear_arith)
            requires
                u * s == q * pow2(k),
                s == 2 * s2,
        ;
        lemma_halve_divides(u * s2, k);
        lemma_odd_cancel(u, s2, (k - 1) as nat);
        let r = choose|r: int| s2 == #[trigger] scaled(r, h);
        assert(s == r * pow2(k)) by (nonlinear_arith)
            requires
                s == 2 * s2,
                s2 == r * h,
                pow2(k) == 2 * h,
        ;
        assert(s == scaled(r, pow2(k) as int));
    }
}

proof fn lemma_geo_parity(t: nat)
    ensures
        geo(t) % 2 == t % 2,
    decreases t,
{
    if t > 0 {
        lemma_geo_parity((t - 1) as nat);
        let s = geo((t - 1) as nat);
        lemma_fundamental_div_mod(s, 2);
        lemma_fundamental_div_mod((t - 1) as int, 2);
        let s2 = s / 2;
        let qa = LCG_MULTIPLIER / 2;
        assert(LCG_MULTIPLIER * s + 1 == 2 * (2 * qa * s2 + qa * (s % 2) + s2) + (s % 2) + 1)
            by (nonlinear_arith)
            requires
                s == 2 * s2 + s % 2,
                LCG_MULTIPLIER == 2 * qa + 1,
        ;
        lemma_mod_bound(s, 2);
        lemma_fundamental_div_mod_converse_mod(
            LCG_MULTIPLIER * s + 1,
            2,
            2 * qa * s2 + qa * (s % 2) + s2 + if s % 2 == 1 { 1int } else { 0 },
            if s % 2 == 1 { 0int } else { 1 },
        );
    }
}

proof fn lemma_val2_bound(t: nat)
    requires
        t > 0,
    ensures
        pow2(val2(t)) <= t,
        divides(pow2(val2(t)) as int, t as int),
    decreases t,
{
    reveal(pow2);
    if t % 2 == 1 {
        lemma2_to64();
        assert(val2(t) == 0);
        assert(t as int == scaled(t as int, pow2(0) as int));
    } else {
        lemma_fundamental_div_mod(t as int, 2);
        lemma_val2_bound(t / 2);
        lemma_pow2_unfold(val2(t));
        let q = choose|q: int| (t / 2) as int == #[trigger] scaled(q, pow2(val2(t / 2)) as int);
        assert(t as int == q * pow2(val2(t))) by (nonlinear_arith)
            requires
                (t / 2) as int == q * pow2(val2(t / 2)),
                t == 2 * (t / 2),
                pow2(val2(t)) == 2 * pow2(val2(t / 2)),
        ;
        assert(t as int == scaled(q, pow2(val2(t)) as int));
    }
}

/// `geo(t) == 2^val2(t) * w` with `w` odd.
proof fn lemma_geo_valuation(t: nat)
    requires
        t > 0,
    ensures
        exists|w: int| w % 2 == 1 && geo(t) == #[trigger] scaled(w, pow2(val2(t)) as int),
    decreases t,
{
    reveal(pow2);
    if t % 2 == 1 {
        lemma_geo_parity(t);
        lemma2_to64();
        assert(val2(t) == 0);
        assert(geo(t) == scaled(geo(t), pow2(0) as int));
    } else {
        let u = t / 2;
        lemma_geo_valuation(u);
        let w = choose|w: int| w % 2 == 1 && geo(u) == #[trigger] scaled(w, pow2(val2(u)) as int);
        lemma_geo_split(u, u);
        assert(u + u == t);
        lemma_mpow_odd(u);
        let p = mpow(u);
        let pq = p / 4;
        lemma_fundamental_div_mod(p, 4);
        lemma_pow2_unfold(val2(t));
        let nw = w * (2 * pq + 1);
        assert(geo(t) == pow2(val2(t)) * nw) by (nonlinear_arith)
            requires
                geo(t) == geo(u) + p * geo(u),
                geo(u) == pow2(val2(u)) * w,
                p == 4 * pq + 1,
                pow2(val2(t)) == 2 * pow2(val2(u)),
                nw == w * (2 * pq + 1),
        ;
        lemma_fundamental_div_mod(w, 2);
        let w2 = w / 2;
        assert(nw == 2 * (2 * w2 * pq + w2 + pq) + 1) by (nonlinear_arith)
            requires
                w == 2 * w2 + 1,
                nw == w * (2 * pq + 1),
        ;
        lemma_fundamental_div_mod_converse_mod(nw, 2, 2 * w2 * pq + w2 + pq, 1);
        assert(geo(t) == scaled(nw, pow2(val2(t)) as int));
    }
}

/// A run shorter than 2^64 never sums to a multiple of 2^64.
proof fn lemma_geo_not_divisible(t: nat)
    requires
        0 < t < word(),
    ensures
        !divides(word(), geo(t)),
{
    lemma_geo_valuation(t);
    lemma_val2_bound(t);
    let v = val2(t);
    let w = choose|w: int| w % 2 == 1 && geo(t) == #[trigger] scaled(w, pow2(v) as int);
    lemma2_to64();
    if v >= 64 {
        if v > 64 {
            lemma_pow2_strictly_increases(64, v);
        }
        assert(false);
    }
    if divides(word(), geo(t)) {
        let q = choose|q: int| geo(t) == #[trigger] scaled(q, word());
        let e = (64 - v) as nat;
        lemma_pow2_adds(v, e);
        let pv = pow2(v) as int;
        let pe = pow2(e) as int;
        assert(word() == pv * pe);
        lemma_mul_is_associative(q, pv, pe);
        lemma_mul_is_commutative(q, pv);
        lemma_mul_is_associative(pv, q, pe);
        lemma_mul_is_commutative(w, pv);
        assert(pv * w == pv * (q * pe));
        lemma_pow2_pos(v);
        lemma_mul_equality_converse(pv, w, q * pe);
        assert(w == q * pe);
        lemma_pow2_unfold(e);
        let h = pow2((e - 1) as nat) as int;
        assert(w == 2 * (q * h)) by (nonlinear_arith)
            requires
                w == q * pe,
                pe == 2 * h,
        ;
        lemma_fundamental_div_mod_converse_mod(w, 2, q * h, 0);
    }
}

/// The first 2^64 states of any orbit are pairwise distinct.
pub proof fn lemma_orbit_injective(x: int, i: nat, j: nat)
    requires
        0 <= x < word(),
        i < j < word(),
    ensures
        lcg_iter(x, i) != lcg_iter(x, j),
{
    let m = word();
    let d = (j - i) as nat;
    lemma_iter_closed(x, i);
    lemma_iter_closed(x, j);
    lemma_geo_split(i, d);
    assert(i + d == j);
    lemma_mpow_minus_one(d);
    lemma_mpow_odd(i);
    let pi = mpow(i);
    let si = geo(i);
    let pd = mpow(d);
    let sd = geo(d);
    let a_i = pi * x + LCG_INCREMENT * si;
    let a_j = mpow(j) * x + LCG_INCREMENT * geo(j);
    let u = pi * ((LCG_MULTIPLIER - 1) * x + LCG_INCREMENT);
    assert(a_j - a_i == u * sd) by (nonlinear_arith)
        requires
            a_i == pi * x + LCG_INCREMENT * si,
            a_j == mpow(j) * x + LCG_INCREMENT * geo(j),
            mpow(j) == pi * pd,
            geo(j) == si + pi * sd,
            pd - 1 == (LCG_MULTIPLIER - 1) * sd,
            u == pi * ((LCG_MULTIPLIER - 1) * x + LCG_INCREMENT),
    ;
    // u is odd: an odd power times an odd linear term.
    lemma_fundamental_div_mod(pi, 4);
    let pq = pi / 4;
    let lin = (LCG_MULTIPLIER - 1) * x + LCG_INCREMENT;
    assert(lin == 2 * (3182068111923396502 * x + 721347520444481703) + 1);
    assert(u == 2 * (pq * 2 * lin + (3182068111923396502 * x + 721347520444481703)) + 1)
        by (nonlinear_arith)
        requires
            u == pi * lin,
            pi == 4 * pq + 1,
            lin == 2 * (3182068111923396502 * x + 721347520444481703) + 1,
    ;
    lemma_fundamental_div_mod_converse_mod(
        u,
        2,
        pq * 2 * lin + (3182068111923396502 * x + 721347520444481703),
        1,
    );
    if lcg_iter(x, i) == lcg_iter(x, j) {
        lemma_mod_equivalence(a_j, a_i, m);
        lemma_fundamental_div_mod(a_j - a_i, m);
        lemma2_to64();
        assert(a_j - a_i == ((a_j - a_i) / m) * m) by (nonlinear_arith)
            requires
                a_j - a_i == m * ((a_j - a_i) / m) + (a_j - a_i) % m,
                (a_j - a_i) % m == 0,
        ;
        assert(u * sd == scaled((a_j - a_i) / m, pow2(64) as int));
        lemma_odd_cancel(u, sd, 64);
        lemma_geo_not_divisible(d);
    }
}

/// The orbit of any state reaches every state within 2^64 steps.
pub proof fn lemma_orbit_covers(x: int, y: int)
    requires
        0 <= x < word(),
        0 <= y < word(),
    ensures
        exists|k: nat| k < word() && lcg_iter(x, k) == y,
{
    let steps = set_int_range(0, word());
    let f = |k: int| lcg_iter(x, k as nat);
    lemma_int_range(0, word());
    assert(injective_on(f, steps)) by {
        assert forall|a: int, b: int|
            steps.contains(a) && steps.contains(b) && #[trigger] f(a) == #[trigger] f(b) implies a
            == b by {
            if a < b {
                lemma_orbit_injective(x, a as nat, b as nat);
            } else if b < a {
                lemma_orbit_injective(x, b as nat, a as nat);
            }
        }
    }
    let image = steps.map(f);
    lemma_map_size(steps, image, f);
    assert(image.subset_of(steps)) by {
        assert forall|z: int| image.contains(z) implies steps.contains(z) by {
            let k = choose|k: int| steps.contains(k) && f(k) == z;
            lemma_iter_closed(x, k as nat);
        }
    }
    lemma_subset_equality(image, steps);
    assert(image.contains(y));
    let k = choose|k: int| steps.contains(k) && f(k) == y;
    assert(lcg_iter(x, k as nat) == y);
}

/// One more step at the front of an orbit.
pub proof fn lemma_iter_shift(x: int, k: nat)
    ensures
        lcg_iter(lcg_next(x), k) == lcg_iter(x, k + 1),
    decreases k,
{
    assert(lcg_iter(x, k + 1) == lcg_next(lcg_iter(x, k)));
    if k > 0 {
        lemma_iter_shift(x, (k - 1) as nat);
        assert(((k - 1) as nat) + 1 == k);
        assert(lcg_iter(lcg_next(x), k) == lcg_next(lcg_iter(lcg_next(x), (k - 1) as nat)));
    }
}

} // verus!
