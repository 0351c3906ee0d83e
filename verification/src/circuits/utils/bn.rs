//! Numbers wider than a machine word, for the encodings that the lookup
//! tables of the circuit compare.

use vstd::prelude::*;
use vstd::arithmetic::power2::pow2;

verus! {

/// `num_bigint::BigUint`: an unsigned number of any width.
#[verifier::external_type_specification]
#[verifier::external_body]
pub struct ExBigUint(num_bigint::BigUint);

/// The digits of a number to the base `2^64`, the least significant first.
pub uninterp spec fn digits(n: num_bigint::BigUint) -> Seq<u64>;

/// The number that digits to the base `2^64` stand for, the least
/// significant first.
pub open spec fn value_of(digits: Seq<u64>) -> nat
    decreases digits.len(),
{
    if digits.len() == 0 {
        0
    } else {
        digits[0] as nat + 0x1_0000_0000_0000_0000 * value_of(digits.skip(1))
    }
}

/// The value of a number.
pub open spec fn bn(n: num_bigint::BigUint) -> nat {
    value_of(digits(n))
}

/// The widest shift that `shl` is asked for.
pub const MAX_SHIFT: u32 = 4096;

/// `BigUint::from` for `u64`: the number with the value of `v`.
#[verifier::external_body]
pub(crate) fn from_u64(v: u64) -> (r: num_bigint::BigUint)
    ensures
        bn(r) == v,
{
    num_bigint::BigUint::from(v)
}

/// `Shl<u32>` of `&BigUint`: the number times `2^shift`. The shift is kept
/// small, so that the result is sure to fit the memory.
#[verifier::external_body]
pub(crate) fn shl(n: &num_bigint::BigUint, shift: u32) -> (r: num_bigint::BigUint)
    requires
        shift <= MAX_SHIFT,
    ensures
        bn(r) == bn(*n) * pow2(shift as nat),
{
    n << shift
}

/// `Add` of `&BigUint`: the sum of the two numbers.
#[verifier::external_body]
pub(crate) fn sum(a: &num_bigint::BigUint, b: &num_bigint::BigUint) -> (r: num_bigint::BigUint)
    ensures
        bn(r) == bn(*a) + bn(*b),
{
    a + b
}

/// `BigUint::to_u64_digits`: the digits to the base `2^64`, the least
/// significant first.
#[verifier::external_body]
pub(crate) fn to_u64_digits(n: &num_bigint::BigUint) -> (r: Vec<u64>)
    ensures
        r@ == digits(*n),
{
    n.to_u64_digits()
}

/// The sum of parts that are each shifted to their place: part `i` of
/// `parts` is a value and the number of bits it is shifted by.
pub open spec fn packed(parts: Seq<(u64, u32)>) -> nat
    decreases parts.len(),
{
    if parts.len() == 0 {
        0
    } else {
        (packed(parts.drop_last()) + parts.last().0 * pow2(parts.last().1 as nat)) as nat
    }
}

/// Packs values into one number, each shifted to its place.
pub fn pack(parts: &Vec<(u64, u32)>) -> (r: num_bigint::BigUint)
    requires
        forall|i: int| 0 <= i < parts@.len() ==> (#[trigger] parts@[i]).1 <= MAX_SHIFT,
    ensures
        bn(r) == packed(parts@),
{
    let mut acc = from_u64(0);
    let mut i: usize = 0;
    while i < parts.len()
        invariant
            i <= parts@.len(),
            forall|j: int| 0 <= j < parts@.len() ==> (#[trigger] parts@[j]).1 <= MAX_SHIFT,
            bn(acc) == packed(parts@.take(i as int)),
        decreases parts@.len() - i,
    {
        let (value, shift) = parts[i];
        proof {
            assert(parts@.take(i + 1).drop_last() =~= parts@.take(i as int));
            assert(parts@.take(i + 1).last() == parts@[i as int]);
        }
        let part = shl(&from_u64(value), shift);
        acc = sum(&acc, &part);
        i += 1;
    }
    proof {
        assert(parts@.take(i as int) =~= parts@);
    }
    acc
}

/// The digits of a number to the base `2^64`, the least significant first.
pub fn digits_of(n: &num_bigint::BigUint) -> (r: Vec<u64>)
    ensures
        r@ == digits(*n),
        value_of(r@) == bn(*n),
{
    to_u64_digits(n)
}

} // verus!
