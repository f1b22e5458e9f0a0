//! Small arithmetic helpers: products capped at the machine maximum, so that
//! capacity bounds (columns times lines) never overflow.

use vstd::prelude::*;
use vstd::arithmetic::div_mod::{lemma_fundamental_div_mod, lemma_mod_bound};
use vstd::arithmetic::mul::lemma_mul_inequality;

verus! {

/// A product, capped at the largest machine integer.
pub open spec fn capped_mul(a: int, b: int) -> int {
    if a * b > usize::MAX as int {
        usize::MAX as int
    } else {
        a * b
    }
}

/// Dividing the bound by one factor tells on which side of the bound the
/// product falls.
pub(crate) proof fn lemma_mul_div_bound(a: int, b: int, m: int)
    requires
        1 <= a,
        0 <= b,
        0 <= m,
    ensures
        b <= m / a ==> a * b <= m,
        b > m / a ==> a * b > m,
{
    lemma_fundamental_div_mod(m, a);
    lemma_mod_bound(m, a);
    if b <= m / a {
        lemma_mul_inequality(b, m / a, a);
        assert(a * b <= a * (m / a)) by {
            assert(b * a == a * b) by (nonlinear_arith);
            assert((m / a) * a == a * (m / a)) by (nonlinear_arith);
        }
    } else {
        lemma_mul_inequality(m / a + 1, b, a);
        assert(a * b >= a * (m / a) + a) by {
            assert(b * a == a * b) by (nonlinear_arith);
            assert((m / a + 1) * a == a * (m / a) + a) by (nonlinear_arith);
        }
    }
}

/// Multiplication that saturates at `usize::MAX` instead of overflowing.
pub fn saturating_mul(a: usize, b: usize) -> (r: usize)
    requires
        a >= 1,
    ensures
        r as int == capped_mul(a as int, b as int),
{
    proof {
        lemma_mul_div_bound(a as int, b as int, usize::MAX as int);
    }
    if b > usize::MAX / a {
        usize::MAX
    } else {
        a * b
    }
}

/// Whether `n >= a * b`, computed without overflowing.
pub fn ge_mul(n: usize, a: usize, b: usize) -> (r: bool)
    requires
        a >= 1,
    ensures
        r == (n as int >= a as int * b as int),
{
    proof {
        lemma_mul_div_bound(a as int, b as int, usize::MAX as int);
    }
    if b > usize::MAX / a {
        false
    } else {
        n >= a * b
    }
}

/// Whether `n > a * b`, computed without overflowing.
pub fn gt_mul(n: usize, a: usize, b: usize) -> (r: bool)
    requires
        a >= 1,
    ensures
        r == (n as int > a as int * b as int),
{
    proof {
        lemma_mul_div_bound(a as int, b as int, usize::MAX as int);
    }
    if b > usize::MAX / a {
        false
    } else {
        n > a * b
    }
}

} // verus!
