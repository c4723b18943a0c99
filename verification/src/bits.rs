//! Binary digits of an integer, for seeding a tape.

use vstd::arithmetic::div_mod::{lemma_div_denominator, lemma_fundamental_div_mod};
use vstd::arithmetic::power2::{lemma2_to64, lemma_pow2_pos, lemma_pow2_unfold, pow2};
use vstd::bits::lemma_u32_shr_is_div;
use vstd::prelude::*;

verus! {

/// The number that the 32 bits of `num` spell when they are read without a
/// sign: `num` itself, or `num` + 2^32 where `num` is negative.
pub open spec fn unsigned(num: i32) -> nat {
    if num >= 0 {
        num as nat
    } else {
        (num + 0x1_0000_0000) as nat
    }
}

/// Bit `i` of `v`, counted from the least significant: 0 or 1.
pub open spec fn bit(v: nat, i: nat) -> nat {
    (v / pow2(i)) % 2
}

/// The character that stands for a bit.
pub open spec fn digit(b: nat) -> char {
    if b == 1 {
        '1'
    } else {
        '0'
    }
}

/// The shift-and-mask test of bit `i` agrees with the arithmetic bit of the
/// unsigned reading.
proof fn lemma_test_is_bit(num: i32, i: u32)
    requires
        i < 32,
    ensures
        ((num >> i) & 1 == 1) <==> bit(unsigned(num), i as nat) == 1,
{
    let u = num as u32;
    assert(num >= 0 ==> u == num) by (bit_vector)
        requires
            u == num as u32,
    ;
    assert(num < 0 ==> u == num + 0x1_0000_0000) by (bit_vector)
        requires
            u == num as u32,
    ;
    assert(((num >> i) & 1 == 1) <==> ((u >> i) & 1 == 1)) by (bit_vector)
        requires
            u == num as u32,
            i < 32,
    ;
    let shifted = u >> i;
    assert(shifted & 1 == shifted % 2) by (bit_vector);
    lemma_u32_shr_is_div(u, i);
}

/// The number that `digits` spell in binary, most significant digit first.
/// The character `'1'` counts as one and every other character as zero.
pub open spec fn binary_value(digits: Seq<char>) -> nat
    decreases digits.len(),
{
    if digits.len() == 0 {
        0
    } else {
        2 * binary_value(digits.drop_last()) + if digits.last() == '1' {
            1nat
        } else {
            0nat
        }
    }
}

/// The first `k` of 32 digits, each the digit of its bit in `v`, spell `v`
/// without its low 32 - `k` bits.
proof fn lemma_leading_digits(digits: Seq<char>, v: nat, k: nat)
    requires
        digits.len() == 32,
        v < 0x1_0000_0000,
        k <= 32,
        forall|j: int| 0 <= j < 32 ==> #[trigger] digits[j] == digit(bit(v, (31 - j) as nat)),
    ensures
        binary_value(digits.take(k as int)) == v / pow2((32 - k) as nat),
    decreases k,
{
    if k == 0 {
        lemma2_to64();
        assert(v / 0x1_0000_0000 == 0);
    } else {
        let low = (32 - k) as nat;
        let x = v / pow2(low);
        lemma_leading_digits(digits, v, (k - 1) as nat);
        assert(digits.take(k as int).drop_last() =~= digits.take(k - 1));
        assert(digits.take(k as int).last() == digit(bit(v, low)));
        lemma_pow2_pos(low);
        lemma_pow2_unfold(low + 1);
        lemma_div_denominator(v as int, pow2(low) as int, 2);
        assert(v / pow2(low + 1) == x / 2);
        lemma_fundamental_div_mod(x as int, 2);
    }
}

/// The 32 binary digits of `num` in two's complement, most significant
/// first, as the characters `'0'` and `'1'`.
pub fn to_bits(num: i32) -> (bits: [char; 32])
    ensures
        forall|k: int|
            0 <= k < 32 ==> #[trigger] bits@[k] == digit(bit(unsigned(num), (31 - k) as nat)),
        binary_value(bits@) == unsigned(num),
{
    let mut bits = ['0'; 32];
    let mut i: u32 = 0;
    while i < 32
        invariant
            i <= 32,
            forall|k: int|
                32 - i <= k < 32 ==> #[trigger] bits@[k] == digit(
                    bit(unsigned(num), (31 - k) as nat),
                ),
            forall|k: int| 0 <= k < 32 - i ==> #[trigger] bits@[k] == '0',
        decreases 32 - i,
    {
        proof {
            lemma_test_is_bit(num, i);
        }
        if (num >> i) & 1 == 1 {
            bits[31 - i as usize] = '1';
        }
        i += 1;
    }
    proof {
        let v = unsigned(num);
        lemma_leading_digits(bits@, v, 32);
        assert(bits@.take(32) =~= bits@);
        assert(pow2(0) == 1) by {
            lemma2_to64();
        }
        assert(binary_value(bits@) == v / pow2(0));
        assert(v / 1 == v);
    }
    bits
}

} // verus!
