//! Non-negative integers of any size as little-endian base-2^32 digits
//! (`Vec<u32>`, least significant first), with the few operations the
//! generator takes from num-bigint.

use vstd::prelude::*;

use num_bigint::BigUint;
use num_traits::Zero;

verus! {

use vstd::arithmetic::power2::pow2;

/// The value of little-endian base-2^32 digits; trailing zero digits add nothing.
pub open spec fn limbs_value(s: Seq<u32>) -> nat
    decreases s.len(),
{
    if s.len() == 0 {
        0
    } else {
        limbs_value(s.drop_last()) + (s.last() as nat) * pow2((32 * (s.len() - 1)) as nat)
    }
}

/// One digit has its own value.
pub proof fn lemma_limbs_single(w: u32)
    ensures
        limbs_value(seq![w]) == w as nat,
{
    let s = seq![w];
    assert(s.drop_last() =~= Seq::<u32>::empty());
    assert(pow2(0) == 1) by {
        vstd::arithmetic::power2::lemma2_to64();
    }
    assert(limbs_value(s) == limbs_value(s.drop_last()) + (w as nat) * pow2(0));
}

/// `x` with its 16 bits from bit `p` on cleared.
pub open spec fn clear16(x: nat, p: nat) -> nat {
    (x - ((x / pow2(p)) % 0x10000) * pow2(p)) as nat
}

/// `limbs_value` is below 2^(32 * number of digits).
pub proof fn lemma_limbs_bound(s: Seq<u32>)
    ensures
        limbs_value(s) < pow2(32 * s.len()),
    decreases s.len(),
{
    if s.len() == 0 {
        vstd::arithmetic::power2::lemma2_to64();
    } else {
        let n = s.len();
        let b = pow2((32 * (n - 1)) as nat);
        lemma_limbs_bound(s.drop_last());
        vstd::arithmetic::power2::lemma_pow2_adds((32 * (n - 1)) as nat, 32);
        vstd::arithmetic::power2::lemma2_to64();
        assert((32 * (n - 1)) as nat + 32 == 32 * n);
        let l = limbs_value(s.drop_last());
        let v = s.last() as nat;
        assert(v <= 0xFFFF_FFFF);
        assert(l + v * b < b * 0x1_0000_0000) by (nonlinear_arith)
            requires
                l < b,
                v <= 0xFFFF_FFFF,
        ;
    }
}

/// The last digit and the value of the others, recovered by division.
pub proof fn lemma_limbs_split(s: Seq<u32>)
    requires
        s.len() > 0,
    ensures
        limbs_value(s) / pow2((32 * (s.len() - 1)) as nat) == s.last() as nat,
        limbs_value(s) % pow2((32 * (s.len() - 1)) as nat) == limbs_value(s.drop_last()),
{
    let b = pow2((32 * (s.len() - 1)) as nat);
    lemma_limbs_bound(s.drop_last());
    assert(s.drop_last().len() == s.len() - 1);
    vstd::arithmetic::power2::lemma_pow2_pos((32 * (s.len() - 1)) as nat);
    vstd::arithmetic::div_mod::lemma_fundamental_div_mod_converse(
        limbs_value(s) as int,
        b as int,
        s.last() as int,
        limbs_value(s.drop_last()) as int,
    );
}

/// Clearing the 16 bits from bit `8 * r` on, in one digit.
proof fn lemma_clear_in_digit(v: u32, r: nat)
    requires
        1 <= r <= 3,
    ensures
        (v & !(0xFFFFu32 << ((8 * r) as u32))) as int == v as int - ((v as int / pow2(8 * r) as int)
            % 0x10000) * pow2(8 * r),
{
    vstd::arithmetic::power2::lemma2_to64();
    if r == 1 {
        assert((v & !(0xFFFFu32 << 8u32)) as int == v as int - ((v as int / 256) % 0x10000) * 256)
            by (bit_vector);
    } else if r == 2 {
        assert((v & !(0xFFFFu32 << 16u32)) as int == v as int - ((v as int / 65536) % 0x10000)
            * 65536) by (bit_vector);
    } else {
        assert((v & !(0xFFFFu32 << 24u32)) as int == v as int - ((v as int / 0x100_0000)
            % 0x10000) * 0x100_0000) by (bit_vector);
    }
}

/// Clearing 16 bits from bit `32 * (n - 1) + 8 * r` on, where `n` is the
/// number of digits, changes only the last digit.
pub proof fn lemma_clear_last_digit(s: Seq<u32>, r: nat)
    requires
        s.len() > 0,
        1 <= r <= 3,
    ensures
        limbs_value(
            s.update(s.len() - 1, s.last() & !(0xFFFFu32 << ((8 * r) as u32))),
        ) == clear16(limbs_value(s), (32 * (s.len() - 1) + 8 * r) as nat),
{
    let n = s.len();
    let e = (32 * (n - 1)) as nat;
    let b = pow2(e);
    let c = pow2(8 * r);
    let x = limbs_value(s);
    let l = limbs_value(s.drop_last());
    let v = s.last();
    let v2 = v & !(0xFFFFu32 << ((8 * r) as u32));
    let t = s.update(n - 1, v2);
    assert(t.drop_last() =~= s.drop_last());
    assert(limbs_value(t) == l + (v2 as nat) * b);
    lemma_limbs_split(s);
    lemma_clear_in_digit(v, r);
    vstd::arithmetic::power2::lemma_pow2_adds(e, 8 * r);
    vstd::arithmetic::power2::lemma_pow2_pos(e);
    vstd::arithmetic::power2::lemma_pow2_pos(8 * r);
    assert(e + 8 * r == (32 * (n - 1) + 8 * r) as nat);
    vstd::arithmetic::div_mod::lemma_div_denominator(x as int, b as int, c as int);
    assert(x / pow2(e + 8 * r) == (v as int) / (c as int));
    let h = ((v as int) / (c as int)) % 0x10000;
    assert(x == l + v * b) by {
        vstd::arithmetic::div_mod::lemma_fundamental_div_mod(x as int, b as int);
    }
    assert(l + v2 * b == x - h * (b * c)) by (nonlinear_arith)
        requires
            x == l + v * b,
            v2 == v - h * c,
    ;
    assert(b * c == c * b) by (nonlinear_arith);
}

/// A value of fewer than 2^p is left as it is by clearing bits from `p` on.
pub proof fn lemma_clear_above(x: nat, p: nat)
    requires
        x < pow2(p),
    ensures
        clear16(x, p) == x,
{
    let d = pow2(p) as int;
    vstd::arithmetic::power2::lemma_pow2_pos(p);
    assert(0 * d == 0) by (nonlinear_arith);
    vstd::arithmetic::div_mod::lemma_fundamental_div_mod_converse(x as int, d, 0, x as int);
    assert(x / pow2(p) == 0);
    assert((0int % 0x10000) * d == 0) by (nonlinear_arith);
}

/// The number of bytes in the big-endian representation of `v` without
/// leading zero bytes; zero takes one byte.
pub open spec fn byte_len(v: nat) -> nat
    decreases v,
{
    if v < 256 {
        1
    } else {
        1 + byte_len(v / 256)
    }
}

/// Relies on num-traits' `Zero::is_zero` for `BigUint`, which is true exactly
/// for the value 0; `BigUint::new` takes the digits least significant first.
#[verifier::external_body]
pub(crate) fn limbs_is_zero(m: &Vec<u32>) -> (r: bool)
    ensures
        r == (limbs_value(m@) == 0),
{
    BigUint::new(m.clone()).is_zero()
}

/// Relies on num-bigint's `BigUint::to_bytes_be`: the big-endian bytes of the
/// value without leading zeros, and `[0]` for zero.
#[verifier::external_body]
pub(crate) fn limbs_byte_len(m: &Vec<u32>) -> (r: usize)
    ensures
        r == byte_len(limbs_value(m@)),
{
    BigUint::new(m.clone()).to_bytes_be().len()
}

/// Relies on num-bigint's `%` on `BigUint`: the remainder of the division,
/// which panics on a zero divisor; `to_u32_digits` gives the digits back.
#[verifier::external_body]
pub(crate) fn limbs_rem(x: &Vec<u32>, m: &Vec<u32>) -> (r: Vec<u32>)
    requires
        limbs_value(m@) > 0,
    ensures
        limbs_value(r@) == limbs_value(x@) % limbs_value(m@),
{
    (BigUint::new(x.clone()) % BigUint::new(m.clone())).to_u32_digits()
}

} // verus!
