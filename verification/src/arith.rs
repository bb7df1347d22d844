//! Powers of ten, the scaling backbone of the fixed-point close prices.

use vstd::prelude::*;

verus! {

/// `10^n` as a mathematical natural.
pub open spec fn pow10(n: nat) -> nat
    decreases n,
{
    if n == 0 {
        1
    } else {
        10 * pow10((n - 1) as nat)
    }
}

/// Every power of ten is at least one.
pub proof fn lemma_pow10_pos(n: nat)
    ensures
        pow10(n) >= 1,
    decreases n,
{
    if n > 0 {
        lemma_pow10_pos((n - 1) as nat);
    }
}

/// Powers of ten grow with the exponent.
pub proof fn lemma_pow10_mono(a: nat, b: nat)
    requires
        a <= b,
    ensures
        pow10(a) <= pow10(b),
    decreases b,
{
    if a < b {
        lemma_pow10_mono(a, (b - 1) as nat);
        lemma_pow10_pos((b - 1) as nat);
    }
}

/// `10^18`, the largest power of ten the executable code ever forms.
pub proof fn lemma_pow10_18()
    ensures
        pow10(18) == 1000000000000000000,
{
    reveal_with_fuel(pow10, 19);
}

/// `10^n` computed executably, for exponents up to 18.
pub fn pow10_u64(n: u64) -> (r: u64)
    requires
        n <= 18,
    ensures
        r == pow10(n as nat),
    decreases n,
{
    if n == 0 {
        1
    } else {
        let p: u64 = pow10_u64(n - 1);
        proof {
            lemma_pow10_mono((n - 1) as nat, 17);
            lemma_pow10_18();
            reveal_with_fuel(pow10, 19);
        }
        10 * p
    }
}

} // verus!
