//! The 64-bit linear congruential generator that stretches one seed into a
//! stream of samples, and the proof that its orbit misses no value.
//!
//! With the modulus `2^64`, a multiplier that leaves remainder 1 on division by
//! four and an odd increment, the generator has full period: started anywhere,
//! it visits every 64-bit value. Rejection sampling on top of it therefore ends,
//! whatever the seed.

use vstd::arithmetic::power2::pow2;
use vstd::prelude::*;

verus! {

/// The generator's multiplier.
pub const MULTIPLIER: u64 = 6364136223846793005;

/// The generator's increment.
pub const INCREMENT: u64 = 1442695040888963407;

/// The number of 64-bit values.
pub open spec fn modulus() -> int {
    0x1_0000_0000_0000_0000
}

/// The sample that follows `x`.
pub open spec fn next_sample(x: u64) -> u64 {
    ((MULTIPLIER * x + INCREMENT) % modulus()) as u64
}

/// The sample that stands `steps` places behind `x`.
pub open spec fn sample_after(x: u64, steps: nat) -> u64
    decreases steps,
{
    if steps == 0 {
        x
    } else {
        sample_after(next_sample(x), (steps - 1) as nat)
    }
}

/// Computes the sample that follows `x`.
pub fn advance(x: u64) -> (r: u64)
    ensures
        r == next_sample(x),
{
    let product: u64 = x.wrapping_mul(MULTIPLIER);
    proof {
        let p = MULTIPLIER as int * x as int;
        assert(x as nat * MULTIPLIER as nat == p) by (nonlinear_arith)
            requires
                p == MULTIPLIER as int * x as int,
        ;
        vstd::arithmetic::div_mod::lemma_add_mod_noop(p, INCREMENT as int, modulus());
    }
    product.wrapping_add(INCREMENT)
}

// The generator over the integers, before reduction: `orbit(x, k)` is congruent
// to the k-th sample. After `2^j` steps it is the affine map
// `x -> factor(j) * x + shift(j)`, whose coefficients are
// `1 + 4 * 2^j * factor_part(j)` and `2^j * (2 * shift_part(j) + 1)`.

spec fn orbit(x: int, k: nat) -> int
    decreases k,
{
    if k == 0 {
        x
    } else {
        orbit(MULTIPLIER * x + INCREMENT, (k - 1) as nat)
    }
}

spec fn factor_part(j: nat) -> int
    decreases j,
{
    if j == 0 {
        (MULTIPLIER - 1) / 4
    } else {
        let i = (j - 1) as nat;
        factor_part(i) + 2 * (pow2(i) * (factor_part(i) * factor_part(i)))
    }
}

spec fn shift_part(j: nat) -> int
    decreases j,
{
    if j == 0 {
        (INCREMENT - 1) / 2
    } else {
        let i = (j - 1) as nat;
        shift_part(i) + pow2(i) * (factor_part(i) * (2 * shift_part(i) + 1))
    }
}

spec fn factor(j: nat) -> int {
    1 + 4 * (pow2(j) * factor_part(j))
}

spec fn shift(j: nat) -> int {
    pow2(j) * (2 * shift_part(j) + 1)
}

proof fn lemma_orbit_adds(x: int, m: nat, n: nat)
    ensures
        orbit(x, m + n) == orbit(orbit(x, m), n),
    decreases m,
{
    if m > 0 {
        lemma_orbit_adds(MULTIPLIER * x + INCREMENT, (m - 1) as nat, n);
    }
}

proof fn lemma_coefficients_double(p: int, t: int, s: int, x: int)
    ensures
        ({
            let a = 1 + 4 * (p * t);
            let c = p * (2 * s + 1);
            let t2 = t + 2 * (p * (t * t));
            let s2 = s + p * (t * (2 * s + 1));
            a * (a * x + c) + c == (1 + 4 * ((2 * p) * t2)) * x + (2 * p) * (2 * s2 + 1)
        }),
{
    let a = 1 + 4 * (p * t);
    let c = p * (2 * s + 1);
    let t2 = t + 2 * (p * (t * t));
    let s2 = s + p * (t * (2 * s + 1));
    assert(a * (a * x + c) + c == (a * a) * x + (a + 1) * c) by (nonlinear_arith);
    assert(a * a == 1 + 4 * ((2 * p) * t2)) by (nonlinear_arith)
        requires
            a == 1 + 4 * (p * t),
            t2 == t + 2 * (p * (t * t)),
    ;
    assert((a + 1) * c == (2 * p) * (2 * s2 + 1)) by (nonlinear_arith)
        requires
            a == 1 + 4 * (p * t),
            c == p * (2 * s + 1),
            s2 == s + p * (t * (2 * s + 1)),
    ;
}

proof fn lemma_orbit_power(x: int, j: nat)
    ensures
        orbit(x, pow2(j)) == factor(j) * x + shift(j),
    decreases j,
{
    vstd::arithmetic::power2::lemma2_to64();
    if j == 0 {
        assert(orbit(x, 1) == MULTIPLIER * x + INCREMENT) by {
            reveal_with_fuel(orbit, 2);
        }
        assert(factor(0) == MULTIPLIER);
        assert(shift(0) == INCREMENT);
    } else {
        let i = (j - 1) as nat;
        let p = pow2(i);
        vstd::arithmetic::power2::lemma_pow2_unfold(j);
        lemma_orbit_power(x, i);
        lemma_orbit_power(orbit(x, p), i);
        lemma_orbit_adds(x, p, p);
        lemma_coefficients_double(p as int, factor_part(i), shift_part(i), x);
    }
}

/// Finds how many steps lead from `x` to a value that agrees with `y` in the
/// lowest `j` bits: fewer than `2^j`.
proof fn lemma_reaches_low_bits(x: int, y: int, j: nat) -> (k: nat)
    ensures
        k < pow2(j),
        exists|q: int| orbit(x, k) - y == #[trigger] (pow2(j) * q),
    decreases j,
{
    vstd::arithmetic::power2::lemma2_to64();
    if j == 0 {
        assert(orbit(x, 0) - y == pow2(0) * (x - y));
        0
    } else {
        let i = (j - 1) as nat;
        let p = pow2(i) as int;
        vstd::arithmetic::power2::lemma_pow2_unfold(j);
        let k = lemma_reaches_low_bits(x, y, i);
        let z = orbit(x, k);
        let q = choose|q: int| z - y == #[trigger] (pow2(i) * q);
        if q % 2 == 0 {
            assert(p * q == (2 * p) * (q / 2)) by (nonlinear_arith)
                requires
                    q % 2 == 0,
            ;
            assert(z - y == pow2(j) * (q / 2));
            k
        } else {
            let t = factor_part(i);
            let s = shift_part(i);
            lemma_orbit_power(z, i);
            lemma_orbit_adds(x, k, pow2(i));
            let h = (q + 1) / 2 + 2 * (t * z) + s;
            let e = (q + 1) / 2;
            assert(q == 2 * e - 1);
            assert((1 + 4 * (p * t)) * z == z + p * (4 * (t * z))) by (nonlinear_arith);
            assert(p * (4 * (t * z)) + p * (2 * s + 1) + p * q == p * (4 * (t * z) + (2 * s + 1) + q))
                by (nonlinear_arith);
            assert(p * (2 * h) == (2 * p) * h) by (nonlinear_arith);
            assert(4 * (t * z) + (2 * s + 1) + q == 2 * h);
            assert(orbit(x, k + pow2(i)) - y == pow2(j) * h);
            k + pow2(i)
        }
    }
}

proof fn lemma_sample_is_reduced_orbit(x: u64, w: int, k: nat)
    requires
        w % modulus() == x,
    ensures
        sample_after(x, k) == orbit(w, k) % modulus(),
    decreases k,
{
    if k > 0 {
        let a = MULTIPLIER as int;
        let c = INCREMENT as int;
        vstd::arithmetic::div_mod::lemma_mul_mod_noop_right(a, w, modulus());
        vstd::arithmetic::div_mod::lemma_add_mod_noop(a * w, c, modulus());
        vstd::arithmetic::div_mod::lemma_add_mod_noop(a * x, c, modulus());
        assert((a * w + c) % modulus() == (a * x + c) % modulus());
        lemma_sample_is_reduced_orbit(next_sample(x), a * w + c, (k - 1) as nat);
    }
}

/// The generator has full period: from any value `x` it reaches any value `y`,
/// in fewer than `2^64` steps.
pub proof fn full_period(x: u64, y: u64)
    ensures
        exists|k: nat| k < modulus() && #[trigger] sample_after(x, k) == y,
{
    vstd::arithmetic::power2::lemma2_to64_rest();
    let k = lemma_reaches_low_bits(x as int, y as int, 64);
    let q = choose|q: int| orbit(x as int, k) - y == #[trigger] (pow2(64) * q);
    lemma_sample_is_reduced_orbit(x, x as int, k);
    assert(orbit(x as int, k) % modulus() == y) by {
        vstd::arithmetic::div_mod::lemma_mod_multiples_vanish(q, y as int, modulus());
        assert(modulus() * q + y == orbit(x as int, k));
    }
    assert(sample_after(x, k) == y);
}

/// Each sample leaves, on division by the number of 64-bit values, the remainder of the
/// one before it times the multiplier, plus the increment.
pub proof fn samples_are_congruent(x: u64)
    ensures
        (6364136223846793005 * x + 1442695040888963407 - next_sample(x))
            % 0x1_0000_0000_0000_0000 == 0,
{
    let v = 6364136223846793005 * x + 1442695040888963407;
    let m = 0x1_0000_0000_0000_0000int;
    vstd::arithmetic::div_mod::lemma_fundamental_div_mod(v, m);
    vstd::arithmetic::div_mod::lemma_mod_multiples_basic(v / m, m);
    assert(v - v % m == (v / m) * m) by (nonlinear_arith)
        requires
            v == m * (v / m) + v % m,
    ;
}

} // verus!
