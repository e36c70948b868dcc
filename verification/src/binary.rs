//! Powers of two and binary digit counts, the integer groundwork of the
//! rounding rules.

use vstd::arithmetic::div_mod::lemma_fundamental_div_mod_converse;
use vstd::arithmetic::power2::{
    lemma2_to64, lemma_pow2_adds, lemma_pow2_pos, lemma_pow2_strictly_increases,
    lemma_pow2_unfold, pow2,
};
use vstd::prelude::*;

verus! {

/// Number of binary digits of `n`: zero for zero, otherwise one more than
/// the position of the leading digit.
pub open spec fn bit_length(n: nat) -> nat
    decreases n,
{
    if n == 0 {
        0
    } else {
        1 + bit_length(n / 2)
    }
}

/// A positive number lies between the two powers of two that its digit
/// count names.
pub proof fn lemma_bit_length_bounds(n: nat)
    requires
        n > 0,
    ensures
        bit_length(n) >= 1,
        pow2((bit_length(n) - 1) as nat) <= n,
        n < pow2(bit_length(n)),
    decreases n,
{
    lemma2_to64();
    if n == 1 {
        assert(bit_length(0) == 0);
        assert(bit_length(1) == 1 + bit_length(0));
    } else {
        let h: nat = n / 2;
        lemma_bit_length_bounds(h);
        let k: nat = bit_length(h);
        assert(bit_length(n) == k + 1);
        lemma_pow2_unfold(k);
        lemma_pow2_unfold(k + 1);
    }
}

/// The digit count is the only number that brackets `n` in this way.
pub proof fn lemma_bit_length_unique(n: nat, k: nat)
    requires
        pow2(k) <= n,
        n < pow2(k + 1),
    ensures
        bit_length(n) == k + 1,
{
    lemma_pow2_pos(k);
    lemma_bit_length_bounds(n);
    let b: nat = bit_length(n);
    if b < k + 1 {
        if b < k {
            lemma_pow2_strictly_increases(b, k);
        }
    } else if b > k + 1 {
        lemma_pow2_strictly_increases(k + 1, (b - 1) as nat);
    }
}

/// Powers of two grow with their exponent.
pub proof fn lemma_pow2_monotone(a: nat, b: nat)
    requires
        a <= b,
    ensures
        pow2(a) <= pow2(b),
        pow2(a) > 0,
{
    lemma_pow2_pos(a);
    if a < b {
        lemma_pow2_strictly_increases(a, b);
    }
}

/// A common positive factor of numerator and denominator leaves the quotient
/// unchanged and scales the remainder.
pub proof fn lemma_cancel_common_factor(a: nat, b: nat, c: nat)
    requires
        b > 0,
        c > 0,
    ensures
        b * c > 0,
        (a * c) / (b * c) == a / b,
        (a * c) % (b * c) == (a % b) * c,
{
    let q: nat = a / b;
    let r: nat = a % b;
    assert(a == q * b + r && r < b) by (nonlinear_arith)
        requires
            q == a / b,
            r == a % b,
            b > 0,
    ;
    assert(b * c > 0) by (nonlinear_arith)
        requires
            b > 0,
            c > 0,
    ;
    assert(a * c == q * (b * c) + r * c) by (nonlinear_arith)
        requires
            a == q * b + r,
    ;
    assert(0 <= r * c < b * c) by (nonlinear_arith)
        requires
            r < b,
            c > 0,
    ;
    lemma_fundamental_div_mod_converse(
        (a * c) as int,
        (b * c) as int,
        q as int,
        (r * c) as int,
    );
}

/// Two to the power `k`, for exponents whose power fits the machine word.
pub fn pow2_exec(k: u32) -> (r: u128)
    requires
        k < 128,
    ensures
        r == pow2(k as nat),
        r > 0,
{
    let mut r: u128 = 1;
    let mut i: u32 = 0;
    proof {
        lemma2_to64();
    }
    while i < k
        invariant
            i <= k,
            k < 128,
            r == pow2(i as nat),
            r > 0,
        decreases k - i,
    {
        proof {
            lemma_pow2_unfold((i + 1) as nat);
            lemma_pow2_monotone((i + 1) as nat, 127);
            lemma_pow2_127();
        }
        r = r * 2;
        i = i + 1;
    }
    r
}

/// The largest power of two that the 128-bit word holds.
pub proof fn lemma_pow2_127()
    ensures
        pow2(127) == 0x8000_0000_0000_0000_0000_0000_0000_0000,
{
    lemma2_to64();
    lemma_pow2_adds(64, 63);
    lemma_pow2_adds(32, 31);
    assert(pow2(63) == 0x8000_0000_0000_0000) by {
        lemma_pow2_adds(32, 31);
    }
}

/// A 128-bit word has at most 128 binary digits.
pub proof fn lemma_bit_length_word(n: u128)
    ensures
        bit_length(n as nat) <= 128,
{
    if n > 0 {
        lemma_bit_length_bounds(n as nat);
        lemma_pow2_127();
        lemma_pow2_unfold(128);
        let b: nat = bit_length(n as nat);
        if b > 128 {
            lemma_pow2_monotone(128, (b - 1) as nat);
        }
    }
}

/// Counts the binary digits of `n`.
pub fn bit_length_exec(n: u128) -> (r: u32)
    ensures
        r == bit_length(n as nat),
        r <= 128,
{
    let mut rest: u128 = n;
    let mut count: u32 = 0;
    proof {
        assert(bit_length(0) == 0);
        lemma_bit_length_word(n);
    }
    while rest > 0
        invariant
            bit_length(n as nat) <= 128,
            bit_length(n as nat) == count + bit_length(rest as nat),
        decreases rest,
    {
        rest = rest / 2;
        count = count + 1;
    }
    count
}

} // verus!
