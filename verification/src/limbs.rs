//! Unbounded unsigned integers as little-endian sequences of 64-bit limbs.
//!
//! The quality-step computation compares `size^k` against `budget^k * 2^n`,
//! and those powers do not fit any machine integer, so they are carried in
//! `Vec<u64>` limb vectors.  Only the two operations the step search needs
//! are provided: multiplication by a single word, and comparison.

use vstd::prelude::*;

verus! {

use vstd::arithmetic::power2::pow2;
use vstd::arithmetic::power2::lemma_pow2_adds;
use vstd::arithmetic::power2::lemma2_to64;
use vstd::arithmetic::mul::lemma_mul_inequality;
use vstd::arithmetic::mul::lemma_mul_upper_bound;
use vstd::arithmetic::div_mod::lemma_fundamental_div_mod;

/// The numeric value of a little-endian sequence of 64-bit limbs.
pub open spec fn limbs_val(s: Seq<u64>) -> nat
    decreases s.len(),
{
    if s.len() == 0 {
        0
    } else {
        s[0] as nat + 0x1_0000_0000_0000_0000 * limbs_val(s.subrange(1, s.len() as int))
    }
}

/// Appending a limb adds its value at the next power-of-2^64 position.
pub proof fn lemma_limbs_val_push(s: Seq<u64>, x: u64)
    ensures
        limbs_val(s.push(x)) == limbs_val(s) + x * pow2(64 * s.len()),
    decreases s.len(),
{
    lemma2_to64();
    let b: nat = 0x1_0000_0000_0000_0000;
    if s.len() == 0 {
        assert(s.push(x).subrange(1, 1) =~= Seq::<u64>::empty());
        assert(limbs_val(Seq::<u64>::empty()) == 0);
        assert(limbs_val(s.push(x)) == x as nat + b * 0);
        assert(limbs_val(s) == 0);
        assert(x * pow2(0) == x * 1);
    } else {
        let t = s.subrange(1, s.len() as int);
        assert(s.push(x).subrange(1, (s.len() + 1) as int) =~= t.push(x));
        lemma_limbs_val_push(t, x);
        lemma_pow2_adds(64, 64 * t.len());
        let p: nat = pow2(64 * t.len());
        assert(limbs_val(s.push(x)) == s[0] as nat + b * limbs_val(t.push(x)));
        assert(limbs_val(s) == s[0] as nat + b * limbs_val(t));
        assert(limbs_val(t.push(x)) == limbs_val(t) + x * p);
        assert(b * (limbs_val(t) + x * p) == b * limbs_val(t) + x * (b * p)) by (nonlinear_arith);
        assert(64 * s.len() == 64 + 64 * t.len());
        assert(pow2(64 * s.len()) == b * p);
    }
}

/// Two equally long limb sequences that agree above position `i` are ordered
/// by their limbs at position `i`.
proof fn lemma_limbs_val_lt(lo: Seq<u64>, hi: Seq<u64>, i: int)
    requires
        lo.len() == hi.len(),
        0 <= i < lo.len(),
        forall|j: int| i < j < lo.len() ==> lo[j] == hi[j],
        lo[i] < hi[i],
    ensures
        limbs_val(lo) < limbs_val(hi),
    decreases lo.len(),
{
    let b: nat = 0x1_0000_0000_0000_0000;
    let lt = lo.subrange(1, lo.len() as int);
    let ht = hi.subrange(1, hi.len() as int);
    if i == 0 {
        assert(lt =~= ht);
        assert(limbs_val(lo) == lo[0] as nat + b * limbs_val(lt));
        assert(limbs_val(hi) == hi[0] as nat + b * limbs_val(ht));
    } else {
        assert forall|j: int| i - 1 < j < lt.len() implies lt[j] == ht[j] by {
            assert(lo[j + 1] == hi[j + 1]);
        }
        lemma_limbs_val_lt(lt, ht, i - 1);
        assert(limbs_val(lo) < limbs_val(hi)) by (nonlinear_arith)
            requires
                limbs_val(lo) == lo[0] as nat + b * limbs_val(lt),
                limbs_val(hi) == hi[0] as nat + b * limbs_val(ht),
                limbs_val(lt) < limbs_val(ht),
                (lo[0] as nat) < b,
        ;
    }
}

/// Copy a limb vector, padding it with high zero limbs up to length `n`.
fn limbs_pad_to(v: &Vec<u64>, n: usize) -> (r: Vec<u64>)
    requires
        v.len() <= n,
    ensures
        r@.len() == n,
        limbs_val(r@) == limbs_val(v@),
        forall|j: int| 0 <= j < v@.len() ==> r@[j] == v@[j],
        forall|j: int| v@.len() <= j < n ==> r@[j] == 0,
{
    let mut r: Vec<u64> = Vec::new();
    let mut i: usize = 0;
    while i < v.len()
        invariant
            i <= v.len(),
            r@ == v@.subrange(0, i as int),
        decreases v.len() - i,
    {
        r.push(v[i]);
        assert(r@ =~= v@.subrange(0, i + 1));
        i = i + 1;
    }
    assert(r@ =~= v@);
    while r.len() < n
        invariant
            r@.len() <= n,
            limbs_val(r@) == limbs_val(v@),
            forall|j: int| 0 <= j < v@.len() ==> r@[j] == v@[j],
            forall|j: int| v@.len() <= j < r@.len() ==> r@[j] == 0,
            v@.len() <= r@.len(),
        decreases n - r.len(),
    {
        proof {
            lemma_limbs_val_push(r@, 0u64);
        }
        r.push(0u64);
    }
    r
}

/// Whether the value of `a` is at most the value of `b`.
#[verifier::loop_isolation(false)]
pub fn limbs_le(a: &Vec<u64>, b: &Vec<u64>) -> (r: bool)
    ensures
        r == (limbs_val(a@) <= limbs_val(b@)),
{
    let n: usize = if a.len() < b.len() { b.len() } else { a.len() };
    let aa = limbs_pad_to(a, n);
    let bb = limbs_pad_to(b, n);
    let mut i: usize = n;
    while i > 0
        invariant
            i <= n,
            forall|j: int| i <= j < n ==> aa@[j] == bb@[j],
        decreases i,
    {
        i = i - 1;
        let x = aa[i];
        let y = bb[i];
        if x < y {
            proof {
                lemma_limbs_val_lt(aa@, bb@, i as int);
            }
            return true;
        }
        if x > y {
            proof {
                lemma_limbs_val_lt(bb@, aa@, i as int);
            }
            return false;
        }
    }
    proof {
        assert(aa@ =~= bb@);
    }
    true
}

/// Multiply a limb vector by a single 64-bit word.
#[verifier::loop_isolation(false)]
pub fn limbs_mul_u64(a: &Vec<u64>, w: u64) -> (r: Vec<u64>)
    ensures
        limbs_val(r@) == limbs_val(a@) * w,
{
    let mut r: Vec<u64> = Vec::new();
    let mut carry: u64 = 0;
    let mut i: usize = 0;
    proof {
        lemma2_to64();
        assert(a@.subrange(0, 0) =~= Seq::<u64>::empty());
        assert(limbs_val(Seq::<u64>::empty()) == 0);
        assert(limbs_val(r@) == 0);
        assert(carry * pow2(0) == 0);
        assert(limbs_val(a@.subrange(0, 0)) * w == 0);
    }
    while i < a.len()
        invariant
            i <= a.len(),
            r@.len() == i,
            limbs_val(r@) + carry * pow2(64 * i as nat) == limbs_val(a@.subrange(0, i as int)) * w,
        decreases a.len() - i,
    {
        let b128: u128 = 0x1_0000_0000_0000_0000u128;
        proof {
            lemma_mul_upper_bound(a@[i as int] as int, 0xffff_ffff_ffff_ffffint, w as int, 0xffff_ffff_ffff_ffffint);
        }
        let t: u128 = (a[i] as u128) * (w as u128) + (carry as u128);
        proof {
            lemma_fundamental_div_mod(t as int, b128 as int);
            if t / b128 >= b128 {
                lemma_mul_inequality(b128 as int, (t / b128) as int, b128 as int);
                assert(false);
            }
        }
        let lo: u64 = (t % b128) as u64;
        let hi: u64 = (t / b128) as u64;
        proof {
            let b: nat = 0x1_0000_0000_0000_0000;
            let p: nat = pow2(64 * i as nat);
            lemma_limbs_val_push(r@, lo);
            lemma_pow2_adds(64 * i as nat, 64);
            assert(a@.subrange(0, i + 1) =~= a@.subrange(0, i as int).push(a@[i as int]));
            lemma_limbs_val_push(a@.subrange(0, i as int), a@[i as int]);
            assert(lo as nat + b * hi as nat == t as nat);
            assert((limbs_val(r@) + lo * p) + (hi as nat) * (p * b) == limbs_val(a@.subrange(0, i + 1)) * w) by (nonlinear_arith)
                requires
                    limbs_val(r@) + (carry as nat) * p == limbs_val(a@.subrange(0, i as int)) * w,
                    lo as nat + b * hi as nat == (a@[i as int] as nat) * (w as nat) + carry as nat,
                    limbs_val(a@.subrange(0, i + 1)) == limbs_val(a@.subrange(0, i as int)) + (a@[i as int] as nat) * p,
            ;
            assert(pow2(64 * (i + 1) as nat) == p * b);
        }
        r.push(lo);
        carry = hi;
        i = i + 1;
    }
    assert(a@.subrange(0, a@.len() as int) =~= a@);
    assert(limbs_val(r@) + carry * pow2(64 * i as nat) == limbs_val(a@) * w);
    if carry > 0 {
        let ghost prefix = r@;
        proof {
            lemma_limbs_val_push(r@, carry);
        }
        r.push(carry);
        assert(r@ == prefix.push(carry));
        assert(limbs_val(r@) == limbs_val(prefix) + carry * pow2(64 * prefix.len()));
        assert(prefix.len() == i as nat);
    } else {
        assert(carry * pow2(64 * i as nat) == 0) by (nonlinear_arith)
            requires
                carry == 0,
        ;
    }
    r
}

} // verus!
