//! The escalation-step computation.
//!
//! When a transcode at some quality comes out `size` bytes against a budget
//! of `budget` bytes (`size > budget`), the controller raises the quality
//! parameter by `ceil(k * log2(size / budget))`, clamped below at 1, where
//! `k` is three times the configured adjustment scale (raising the quality
//! parameter by 3 is expected to halve the output size, and the scale
//! deliberately over-corrects).  That ceiling is characterized exactly over
//! the integers: it is the least `n` with `size^k <= budget^k * 2^n`.

use vstd::prelude::*;

verus! {

use vstd::arithmetic::power::pow;
use vstd::arithmetic::power::lemma_pow1;
use vstd::arithmetic::power::lemma_pow_adds;
use vstd::arithmetic::power::lemma_pow_positive;
use vstd::arithmetic::power::lemma_pow_multiplies;
use vstd::arithmetic::power::lemma_pow_distributes;
use vstd::arithmetic::power2::pow2;
use vstd::arithmetic::power2::lemma_pow2;
use vstd::arithmetic::power2::lemma_pow2_adds;
use vstd::arithmetic::power2::lemma_pow2_strictly_increases;
use vstd::arithmetic::power2::lemma2_to64;
use vstd::arithmetic::mul::lemma_mul_inequality;
use crate::limbs::limbs_val;
use crate::limbs::limbs_mul_u64;
use crate::limbs::limbs_le;
use crate::limbs::lemma_limbs_val_push;

/// `n` escalation units close the size gap: `(size/budget)^k <= 2^n`,
/// stated without division as `size^k <= budget^k * 2^n`.  Equivalently,
/// `n >= k * log2(size / budget)`.
pub open spec fn gap_closed(size: nat, budget: nat, k: nat, n: nat) -> bool {
    pow(size as int, k) <= pow(budget as int, k) * pow2(n)
}

/// `step` is the escalation step for an output of `size` bytes against
/// `budget`: the least `n` with `gap_closed(size, budget, k, n)` — that is,
/// `ceil(k * log2(size / budget))` — clamped below at 1 so that the search
/// always moves forward.
pub open spec fn step_ok(size: nat, budget: nat, k: nat, step: nat) -> bool {
    &&& 1 <= step
    &&& gap_closed(size, budget, k, step)
    &&& step > 1 ==> !gap_closed(size, budget, k, (step - 1) as nat)
}

/// Raising both of two ordered bases to the same power keeps the order.
proof fn lemma_pow_base_le(x: nat, y: nat, e: nat)
    requires
        1 <= x <= y,
    ensures
        pow(x as int, e) <= pow(y as int, e),
    decreases e,
{
    reveal(pow);
    if e > 0 {
        lemma_pow_base_le(x, y, (e - 1) as nat);
        lemma_pow_positive(x as int, (e - 1) as nat);
        assert(x * pow(x as int, (e - 1) as nat) <= y * pow(y as int, (e - 1) as nat))
            by (nonlinear_arith)
            requires
                1 <= x <= y,
                0 < pow(x as int, (e - 1) as nat) <= pow(y as int, (e - 1) as nat),
        ;
        assert(pow(x as int, e) == x * pow(x as int, (e - 1) as nat));
        assert(pow(y as int, e) == y * pow(y as int, (e - 1) as nat));
    } else {
        assert(pow(x as int, 0) == 1);
        assert(pow(y as int, 0) == 1);
    }
}

/// Strict version of `lemma_pow_base_le` for a positive exponent.
proof fn lemma_pow_base_lt(x: nat, y: nat, e: nat)
    requires
        1 <= x < y,
        1 <= e,
    ensures
        pow(x as int, e) < pow(y as int, e),
    decreases e,
{
    reveal(pow);
    if e == 1 {
        lemma_pow1(x as int);
        lemma_pow1(y as int);
    } else {
        lemma_pow_base_lt(x, y, (e - 1) as nat);
        lemma_pow_positive(x as int, (e - 1) as nat);
        assert(x * pow(x as int, (e - 1) as nat) < y * pow(y as int, (e - 1) as nat))
            by (nonlinear_arith)
            requires
                1 <= x < y,
                0 < pow(x as int, (e - 1) as nat) < pow(y as int, (e - 1) as nat),
        ;
        assert(pow(x as int, e) == x * pow(x as int, (e - 1) as nat));
        assert(pow(y as int, e) == y * pow(y as int, (e - 1) as nat));
    }
}

/// `x^k` as a limb vector.
fn pow_limbs(x: u64, k: u64) -> (r: Vec<u64>)
    requires
        1 <= x,
        1 <= k,
    ensures
        limbs_val(r@) == pow(x as int, k as nat),
{
    let mut r: Vec<u64> = Vec::new();
    proof {
        lemma2_to64();
        lemma_limbs_val_push(Seq::<u64>::empty(), x);
        assert(limbs_val(Seq::<u64>::empty()) == 0);
        assert(r@ =~= Seq::<u64>::empty());
    }
    r.push(x);
    proof {
        assert(r@ =~= Seq::<u64>::empty().push(x));
        assert(limbs_val(r@) == 0 + x * pow2(0));
        lemma_pow1(x as int);
    }
    let mut j: u64 = 1;
    while j < k
        invariant
            1 <= j <= k,
            limbs_val(r@) == pow(x as int, j as nat),
        decreases k - j,
    {
        r = limbs_mul_u64(&r, x);
        proof {
            lemma_pow_adds(x as int, j as nat, 1);
            lemma_pow1(x as int);
        }
        j = j + 1;
    }
    r
}

/// The escalation step for an oversized output: the least `n` with
/// `size^(3*scale) <= budget^(3*scale) * 2^n`, clamped below at 1.
#[verifier::loop_isolation(false)]
pub fn compute_step(size: u64, budget: u64, scale: u32) -> (step: u64)
    requires
        1 <= budget,
        budget < size,
        1 <= scale,
    ensures
        step_ok(size as nat, budget as nat, 3 * scale as nat, step as nat),
        step <= 192 * scale as nat,
{
    let k: u64 = 3 * (scale as u64);
    let target = pow_limbs(size, k);
    let mut cur = pow_limbs(budget, k);
    let mut n: u64 = 0;
    proof {
        lemma2_to64();
        lemma_pow_positive(budget as int, k as nat);
        // size^k < 2^(64 * k), so the search cannot pass n = 64 * k
        lemma_pow_base_lt(size as nat, 0x1_0000_0000_0000_0000, k as nat);
        lemma_pow2(64);
        lemma_pow2((64 * k) as nat);
        lemma_pow_multiplies(2, 64, k as nat);
        assert(pow(size as int, k as nat) < pow2((64 * k) as nat));
    }
    let mut fits = limbs_le(&target, &cur);
    while !fits
        invariant
            fits == (limbs_val(target@) <= limbs_val(cur@)),
            limbs_val(cur@) == pow(budget as int, k as nat) * pow2(n as nat),
            n <= 64 * k,
            n > 0 ==> !gap_closed(size as nat, budget as nat, k as nat, (n - 1) as nat),
        decreases 64 * k - n,
    {
        proof {
            // the loop continues, so 2^n <= budget^k * 2^n < size^k < 2^(64k),
            // hence n < 64 * k and the step above stays in range
            lemma_mul_inequality(1, pow(budget as int, k as nat), pow2(n as nat) as int);
            if n >= 64 * k {
                if n > 64 * k {
                    lemma_pow2_strictly_increases((64 * k) as nat, n as nat);
                }
                assert(false);
            }
        }
        cur = limbs_mul_u64(&cur, 2);
        n = n + 1;
        proof {
            lemma_pow2_adds((n - 1) as nat, 1);
            assert(pow(budget as int, k as nat) * pow2((n - 1) as nat) * 2 == pow(
                budget as int,
                k as nat,
            ) * (pow2((n - 1) as nat) * pow2(1))) by (nonlinear_arith)
                requires
                    pow2(1) == 2,
            ;
        }
        fits = limbs_le(&target, &cur);
    }
    if n == 0 {
        proof {
            assert(pow(budget as int, k as nat) * pow2(0) <= pow(budget as int, k as nat) * pow2(
                1,
            )) by (nonlinear_arith)
                requires
                    pow2(0) == 1,
                    pow2(1) == 2,
                    pow(budget as int, k as nat) > 0,
            ;
        }
        1
    } else {
        n
    }
}

/// The escalation step grows with the size ratio: for a fixed `k`, a
/// measurement whose ratio `size1 / budget1` is at most `size2 / budget2`
/// (stated without division as `size1 * budget2 <= size2 * budget1`) never
/// yields a larger step.  Together with `1 <= step` (part of `step_ok`),
/// this is the guarantee that the search always moves forward, faster the
/// further it is from the budget.
pub proof fn lemma_step_monotonic(
    size1: nat,
    budget1: nat,
    size2: nat,
    budget2: nat,
    k: nat,
    step1: nat,
    step2: nat,
)
    requires
        1 <= budget1 < size1,
        1 <= budget2 < size2,
        size1 * budget2 <= size2 * budget1,
        1 <= k,
        step_ok(size1, budget1, k, step1),
        step_ok(size2, budget2, k, step2),
    ensures
        step1 <= step2,
{
    if step2 < step1 {
        // step1 >= 2, so the gap was still open one unit below step1 ...
        assert(pow(budget1 as int, k) * pow2((step1 - 1) as nat) < pow(size1 as int, k));
        // ... yet scaling gap_closed(size2, budget2, step2) by the ratio
        // hypothesis closes that same gap, a contradiction.
        assert(1 <= size1 * budget2 && size1 * budget2 <= size2 * budget1) by (nonlinear_arith)
            requires
                1 <= size1,
                1 <= budget2,
                size1 * budget2 <= size2 * budget1,
        ;
        lemma_pow_base_le(size1 * budget2, size2 * budget1, k);
        lemma_pow_distributes(size1 as int, budget2 as int, k);
        lemma_pow_distributes(size2 as int, budget1 as int, k);
        if step2 < step1 - 1 {
            lemma_pow2_strictly_increases(step2, (step1 - 1) as nat);
        }
        lemma_pow_positive(budget1 as int, k);
        lemma_pow_positive(budget2 as int, k);
        lemma_pow_positive(size1 as int, k);
        lemma_pow_positive(size2 as int, k);
        let s1 = pow(size1 as int, k);
        let s2 = pow(size2 as int, k);
        let b1 = pow(budget1 as int, k);
        let b2 = pow(budget2 as int, k);
        assert(s1 <= b1 * pow2((step1 - 1) as nat)) by (nonlinear_arith)
            requires
                s1 * b2 <= s2 * b1,
                s2 <= b2 * pow2(step2),
                pow2(step2) <= pow2((step1 - 1) as nat),
                b1 > 0,
                b2 > 0,
                s1 > 0,
        ;
        assert(false);
    }
}

/// `step_ok` pins the step down: two steps for the same measurement agree.
pub proof fn lemma_step_unique(size: nat, budget: nat, k: nat, step1: nat, step2: nat)
    requires
        1 <= budget,
        budget < size,
        1 <= k,
        step_ok(size, budget, k, step1),
        step_ok(size, budget, k, step2),
    ensures
        step1 == step2,
{
    lemma_step_monotonic(size, budget, size, budget, k, step1, step2);
    lemma_step_monotonic(size, budget, size, budget, k, step2, step1);
}

} // verus!
