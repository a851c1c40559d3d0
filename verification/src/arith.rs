//! Small executable arithmetic helpers shared by the bit-field code.

use vstd::prelude::*;
use vstd::arithmetic::power2::pow2;

verus! {

/// Bit p of x: the parity of ⌊x / 2<sup>p</sup>⌋.
pub open spec fn bit_of(x: nat, p: nat) -> nat {
    (x / pow2(p)) % 2
}

/// Setting a clear bit: adding 2<sup>p</sup> to a value whose bit p is zero
/// turns exactly that bit on, leaves every other bit as it was, and stays
/// under any power of two the value was already under.
pub proof fn lemma_bit_set(acc: nat, p: nat)
    requires
        bit_of(acc, p) == 0,
    ensures
        bit_of((acc + pow2(p)) as nat, p) == 1,
        forall|q: nat| q != p ==> bit_of((acc + pow2(p)) as nat, q) == bit_of(acc, q),
        forall|n: nat| p < n && acc < pow2(n) ==> acc + pow2(p) < pow2(n),
        acc % pow2(p) == 0 ==> (acc + pow2(p)) % pow2(p) == 0,
{
    vstd::arithmetic::power2::lemma_pow2_pos(p);
    vstd::arithmetic::power2::lemma_pow2_unfold(p + 1);
    vstd::arithmetic::power2::lemma_pow2_pos(p + 1);
    let lo = acc % pow2(p);
    let hi = acc / pow2(p + 1);
    // acc = hi·2^(p+1) + lo with lo < 2^p, because bit p is zero.
    assert(acc % pow2(p + 1) == lo) by {
        vstd::arithmetic::div_mod::lemma_breakdown(acc as int, pow2(p) as int, 2);
        assert(pow2(p) * 2 == pow2(p + 1));
    }
    vstd::arithmetic::div_mod::lemma_fundamental_div_mod(acc as int, pow2(p + 1) as int);
    assert(acc == pow2(p + 1) * hi + lo);
    let x = (acc + pow2(p)) as nat;
    assert(x == pow2(p + 1) * hi + (pow2(p) + lo));

    // Bit p of x is one.
    assert(bit_of(x, p) == 1) by {
        assert(pow2(p + 1) * hi == (2 * hi) * pow2(p)) by {
            vstd::arithmetic::mul::lemma_mul_is_associative(2, pow2(p) as int, hi as int);
            vstd::arithmetic::mul::lemma_mul_is_commutative(pow2(p) as int, hi as int);
            vstd::arithmetic::mul::lemma_mul_is_associative(2, hi as int, pow2(p) as int);
        }
        assert(x == (pow2(p) + lo) + (2 * hi) * pow2(p));
        vstd::arithmetic::div_mod::lemma_hoist_over_denominator(
            (pow2(p) + lo) as int,
            2 * (hi as int),
            pow2(p),
        );
        assert((pow2(p) + lo) / pow2(p) == 1) by {
            vstd::arithmetic::div_mod::lemma_div_plus_one(lo as int, pow2(p) as int);
            vstd::arithmetic::div_mod::lemma_basic_div(lo as int, pow2(p) as int);
        }
        assert(x / pow2(p) == 2 * hi + 1);
        assert((2 * hi + 1) % 2 == 1) by {
            vstd::arithmetic::div_mod::lemma_mod_multiples_vanish(hi as int, 1, 2);
        }
    }

    // Bits above p are untouched: x and acc share the quotient by 2^(p+1).
    assert(x / pow2(p + 1) == hi && acc / pow2(p + 1) == hi) by {
        vstd::arithmetic::div_mod::lemma_hoist_over_denominator(
            (pow2(p) + lo) as int,
            hi as int,
            pow2(p + 1),
        );
        vstd::arithmetic::mul::lemma_mul_is_commutative(hi as int, pow2(p + 1) as int);
        assert((pow2(p) + lo) / pow2(p + 1) == 0) by {
            vstd::arithmetic::div_mod::lemma_basic_div((pow2(p) + lo) as int, pow2(p + 1) as int);
        }
        vstd::arithmetic::div_mod::lemma_hoist_over_denominator(
            lo as int,
            hi as int,
            pow2(p + 1),
        );
        assert(lo / pow2(p + 1) == 0) by {
            vstd::arithmetic::div_mod::lemma_basic_div(lo as int, pow2(p + 1) as int);
            vstd::arithmetic::power2::lemma_pow2_strictly_increases(p, p + 1);
        }
    }
    assert forall|q: nat| q > p implies bit_of(x, q) == bit_of(acc, q) by {
        vstd::arithmetic::power2::lemma_pow2_adds(p + 1, (q - p - 1) as nat);
        vstd::arithmetic::power2::lemma_pow2_pos((q - p - 1) as nat);
        vstd::arithmetic::div_mod::lemma_div_denominator(
            x as int,
            pow2(p + 1) as int,
            pow2((q - p - 1) as nat) as int,
        );
        vstd::arithmetic::div_mod::lemma_div_denominator(
            acc as int,
            pow2(p + 1) as int,
            pow2((q - p - 1) as nat) as int,
        );
        assert(x / pow2(q) == hi / pow2((q - p - 1) as nat));
        assert(acc / pow2(q) == hi / pow2((q - p - 1) as nat));
    }

    // Bits below p are untouched: adding 2^p adds an even number to the
    // quotient by 2^q for q < p, and leaves the remainder below 2^q alone.
    assert forall|q: nat| q < p implies bit_of(x, q) == bit_of(acc, q) by {
        vstd::arithmetic::power2::lemma_pow2_adds(q, (p - q) as nat);
        vstd::arithmetic::power2::lemma_pow2_pos(q);
        vstd::arithmetic::power2::lemma_pow2_pos((p - q) as nat);
        vstd::arithmetic::power2::lemma_pow2_pos((p - q - 1) as nat);
        assert(pow2(p) == pow2((p - q) as nat) * pow2(q)) by {
            vstd::arithmetic::mul::lemma_mul_is_commutative(
                pow2(q) as int,
                pow2((p - q) as nat) as int,
            );
        }
        vstd::arithmetic::div_mod::lemma_hoist_over_denominator(
            acc as int,
            pow2((p - q) as nat) as int,
            pow2(q),
        );
        assert(x / pow2(q) == acc / pow2(q) + pow2((p - q) as nat));
        vstd::arithmetic::power2::lemma_pow2_unfold((p - q) as nat);
        assert(pow2((p - q) as nat) == 2 * pow2((p - q - 1) as nat));
        assert((acc / pow2(q) + 2 * pow2((p - q - 1) as nat)) % 2 == (acc / pow2(q)) % 2) by {
            vstd::arithmetic::div_mod::lemma_mod_multiples_vanish(
                pow2((p - q - 1) as nat) as int,
                (acc / pow2(q)) as int,
                2,
            );
        }
    }

    // The value stays below any enclosing power of two.
    assert forall|n: nat| p < n && acc < pow2(n) implies acc + pow2(p) < pow2(n) by {
        // acc < 2^n with bit p clear: acc ≤ 2^n − 2^p − ... via the quotient
        // bound hi·2^(p+1) + lo ≤ (2^(n−p−1) − 1)·2^(p+1) + 2^p − 1.
        vstd::arithmetic::power2::lemma_pow2_adds(p + 1, (n - p - 1) as nat);
        vstd::arithmetic::power2::lemma_pow2_pos((n - p - 1) as nat);
        assert(hi < pow2((n - p - 1) as nat)) by {
            vstd::arithmetic::div_mod::lemma_multiply_divide_lt(
                acc as int,
                pow2(p + 1) as int,
                pow2((n - p - 1) as nat) as int,
            );
        }
        assert(hi <= pow2((n - p - 1) as nat) - 1);
        assert(pow2(p + 1) * hi <= pow2(p + 1) * (pow2((n - p - 1) as nat) - 1)) by {
            vstd::arithmetic::mul::lemma_mul_inequality(
                hi as int,
                pow2((n - p - 1) as nat) - 1,
                pow2(p + 1) as int,
            );
            vstd::arithmetic::mul::lemma_mul_is_commutative(
                hi as int,
                pow2(p + 1) as int,
            );
        }
        assert(pow2(p + 1) * (pow2((n - p - 1) as nat) - 1) == pow2(n) - pow2(p + 1)) by {
            vstd::arithmetic::mul::lemma_mul_is_distributive_sub(
                pow2(p + 1) as int,
                pow2((n - p - 1) as nat) as int,
                1,
            );
        }
        assert(acc + pow2(p) <= pow2(n) - pow2(p + 1) + lo + pow2(p));
        assert(lo < pow2(p));
    }

    // Divisibility below the set bit is kept.
    assert(acc % pow2(p) == 0 ==> (acc + pow2(p)) % pow2(p) == 0) by {
        if acc % pow2(p) == 0 {
            vstd::arithmetic::div_mod::lemma_mod_multiples_vanish(1, acc as int, pow2(p) as int);
            vstd::arithmetic::mul::lemma_mul_is_commutative(pow2(p) as int, 1);
        }
    }
}

/// A value divisible by 2<sup>p+1</sup> has bit p clear and is divisible by
/// 2<sup>p</sup>.
pub proof fn lemma_aligned_bit_clear(acc: nat, p: nat)
    requires
        acc % pow2(p + 1) == 0,
    ensures
        bit_of(acc, p) == 0,
        acc % pow2(p) == 0,
{
    vstd::arithmetic::power2::lemma_pow2_pos(p);
    vstd::arithmetic::power2::lemma_pow2_pos(p + 1);
    vstd::arithmetic::power2::lemma_pow2_unfold(p + 1);
    let hi = acc / pow2(p + 1);
    vstd::arithmetic::div_mod::lemma_fundamental_div_mod(acc as int, pow2(p + 1) as int);
    assert(acc == pow2(p + 1) * hi);
    assert(acc == (2 * hi) * pow2(p)) by {
        vstd::arithmetic::mul::lemma_mul_is_associative(2, pow2(p) as int, hi as int);
        vstd::arithmetic::mul::lemma_mul_is_commutative(pow2(p) as int, hi as int);
        vstd::arithmetic::mul::lemma_mul_is_associative(2, hi as int, pow2(p) as int);
    }
    assert(acc % pow2(p) == 0) by {
        vstd::arithmetic::div_mod::lemma_mod_multiples_basic(2 * (hi as int), pow2(p) as int);
    }
    assert(acc / pow2(p) == 2 * hi) by {
        vstd::arithmetic::div_mod::lemma_div_multiples_vanish(2 * (hi as int), pow2(p) as int);
        vstd::arithmetic::mul::lemma_mul_is_commutative(2 * (hi as int), pow2(p) as int);
    }
    assert((2 * hi) % 2 == 0) by {
        vstd::arithmetic::div_mod::lemma_mod_multiples_basic(hi as int, 2);
        vstd::arithmetic::mul::lemma_mul_is_commutative(hi as int, 2);
    }
}

/// Compute 2<sup>e</sup> as a `u32`.
pub fn pow2_u32(e: u32) -> (r: u32)
    requires
        e <= 31,
    ensures
        r == pow2(e as nat),
        r >= 1,
{
    proof {
        vstd::arithmetic::power2::lemma2_to64();
    }
    let mut r: u32 = 1;
    let mut i: u32 = 0;
    while i < e
        invariant
            0 <= i <= e <= 31,
            r == pow2(i as nat),
            r <= pow2(31),
        decreases e - i,
    {
        proof {
            vstd::arithmetic::power2::lemma_pow2_unfold((i + 1) as nat);
            vstd::arithmetic::power2::lemma_pow2_strictly_increases(i as nat + 1, 32);
            vstd::arithmetic::power2::lemma2_to64();
        }
        r = r * 2;
        i = i + 1;
    }
    r
}

/// Compute 2<sup>e</sup> as a `u64`.
pub fn pow2_u64(e: u64) -> (r: u64)
    requires
        e <= 63,
    ensures
        r == pow2(e as nat),
        r >= 1,
{
    proof {
        vstd::arithmetic::power2::lemma2_to64();
        vstd::arithmetic::power2::lemma2_to64_rest();
    }
    let mut r: u64 = 1;
    let mut i: u64 = 0;
    while i < e
        invariant
            0 <= i <= e <= 63,
            r == pow2(i as nat),
            r <= pow2(63),
        decreases e - i,
    {
        proof {
            vstd::arithmetic::power2::lemma_pow2_unfold((i + 1) as nat);
            vstd::arithmetic::power2::lemma_pow2_strictly_increases(i as nat + 1, 64);
            vstd::arithmetic::power2::lemma2_to64();
            vstd::arithmetic::power2::lemma2_to64_rest();
        }
        r = r * 2;
        i = i + 1;
    }
    r
}

} // verus!
