//! Word arithmetic carried out by `primitive_types::U256`.
//!
//! Each function turns its words into `U256` values (the same four
//! little-endian limbs), makes one call, and turns the result back.
use crate::word::{
    add_spec, and_spec, byte_spec, exp_spec, mul_spec, not_spec, or_spec, shl_spec, shr_spec,
    modulus, sub_spec, word_of, xor_spec, Word,
};
use primitive_types::{U256, U512};
use vstd::arithmetic::power2::pow2;
use vstd::prelude::*;

verus! {

/// Value of a big-endian byte string.
pub open spec fn be_value(s: Seq<u8>) -> nat
    decreases s.len(),
{
    if s.len() == 0 {
        0
    } else {
        be_value(s.drop_last()) * 256 + s.last() as nat
    }
}

/// The 32 bytes of a word, most significant first.
pub open spec fn be_bytes(w: Word) -> Seq<u8> {
    Seq::new(32, |i: int| byte_spec(w, i as nat) as u8)
}

/// Relies on `U256::overflowing_add`: the sum modulo 2^256, and whether it
/// overflowed.
#[verifier::external_body]
pub(crate) fn word_add(a: Word, b: Word) -> (r: (Word, bool))
    ensures
        r.0 == add_spec(a, b),
        r.0.value() + (if r.1 { modulus() } else { 0 }) == a.value() + b.value(),
{
    let (x, c) = U256([a.l0, a.l1, a.l2, a.l3]).overflowing_add(U256([b.l0, b.l1, b.l2, b.l3]));
    (Word { l0: x.0[0], l1: x.0[1], l2: x.0[2], l3: x.0[3] }, c)
}

/// Relies on `U256::full_mul`: the whole 512-bit product, as low and high words.
#[verifier::external_body]
pub(crate) fn word_full_mul(a: Word, b: Word) -> (r: (Word, Word))
    ensures
        r.0.value() + modulus() * r.1.value() == a.value() * b.value(),
{
    let x = U256([a.l0, a.l1, a.l2, a.l3]).full_mul(U256([b.l0, b.l1, b.l2, b.l3]));
    (
        Word { l0: x.0[0], l1: x.0[1], l2: x.0[2], l3: x.0[3] },
        Word { l0: x.0[4], l1: x.0[5], l2: x.0[6], l3: x.0[7] },
    )
}

/// Relies on `Rem for U512`: the 512-bit number `hi * 2^256 + lo` modulo `n`,
/// which is below `n` and so fits a word; it panics on a zero divisor.
#[verifier::external_body]
pub(crate) fn wide_rem(lo: Word, hi: Word, n: Word) -> (r: Word)
    requires
        n.value() != 0,
    ensures
        r == word_of((lo.value() + modulus() * hi.value()) % n.value()),
{
    let x = U512([lo.l0, lo.l1, lo.l2, lo.l3, hi.l0, hi.l1, hi.l2, hi.l3])
        % U512([n.l0, n.l1, n.l2, n.l3, 0, 0, 0, 0]);
    Word { l0: x.0[0], l1: x.0[1], l2: x.0[2], l3: x.0[3] }
}

/// Relies on `U256::overflowing_sub`: the difference modulo 2^256.
#[verifier::external_body]
pub(crate) fn word_sub(a: Word, b: Word) -> (r: Word)
    ensures
        r == sub_spec(a, b),
{
    let x = U256([a.l0, a.l1, a.l2, a.l3]).overflowing_sub(U256([b.l0, b.l1, b.l2, b.l3])).0;
    Word { l0: x.0[0], l1: x.0[1], l2: x.0[2], l3: x.0[3] }
}

/// Relies on `U256::overflowing_mul`: the product modulo 2^256.
#[verifier::external_body]
pub(crate) fn word_mul(a: Word, b: Word) -> (r: Word)
    ensures
        r == mul_spec(a, b),
{
    let x = U256([a.l0, a.l1, a.l2, a.l3]).overflowing_mul(U256([b.l0, b.l1, b.l2, b.l3])).0;
    Word { l0: x.0[0], l1: x.0[1], l2: x.0[2], l3: x.0[3] }
}

/// Relies on `U256::div_mod`: quotient and remainder; it panics on a zero divisor.
#[verifier::external_body]
pub(crate) fn word_div_mod(a: Word, b: Word) -> (r: (Word, Word))
    requires
        b.value() != 0,
    ensures
        r.0 == word_of(a.value() / b.value()),
        r.1 == word_of(a.value() % b.value()),
{
    let (q, m) = U256([a.l0, a.l1, a.l2, a.l3]).div_mod(U256([b.l0, b.l1, b.l2, b.l3]));
    (
        Word { l0: q.0[0], l1: q.0[1], l2: q.0[2], l3: q.0[3] },
        Word { l0: m.0[0], l1: m.0[1], l2: m.0[2], l3: m.0[3] },
    )
}

/// Relies on `U256::overflowing_pow`: the power modulo 2^256.
#[verifier::external_body]
pub(crate) fn word_pow(a: Word, b: Word) -> (r: Word)
    ensures
        r == exp_spec(a, b),
{
    let x = U256([a.l0, a.l1, a.l2, a.l3]).overflowing_pow(U256([b.l0, b.l1, b.l2, b.l3])).0;
    Word { l0: x.0[0], l1: x.0[1], l2: x.0[2], l3: x.0[3] }
}

/// Relies on `Not for U256`: each limb complemented.
#[verifier::external_body]
pub(crate) fn word_not(a: Word) -> (r: Word)
    ensures
        r == not_spec(a),
{
    let x = !U256([a.l0, a.l1, a.l2, a.l3]);
    Word { l0: x.0[0], l1: x.0[1], l2: x.0[2], l3: x.0[3] }
}

/// Relies on `BitAnd for U256`: limb by limb.
#[verifier::external_body]
pub(crate) fn word_and(a: Word, b: Word) -> (r: Word)
    ensures
        r == and_spec(a, b),
{
    let x = U256([a.l0, a.l1, a.l2, a.l3]) & U256([b.l0, b.l1, b.l2, b.l3]);
    Word { l0: x.0[0], l1: x.0[1], l2: x.0[2], l3: x.0[3] }
}

/// Relies on `BitOr for U256`: limb by limb.
#[verifier::external_body]
pub(crate) fn word_or(a: Word, b: Word) -> (r: Word)
    ensures
        r == or_spec(a, b),
{
    let x = U256([a.l0, a.l1, a.l2, a.l3]) | U256([b.l0, b.l1, b.l2, b.l3]);
    Word { l0: x.0[0], l1: x.0[1], l2: x.0[2], l3: x.0[3] }
}

/// Relies on `BitXor for U256`: limb by limb.
#[verifier::external_body]
pub(crate) fn word_xor(a: Word, b: Word) -> (r: Word)
    ensures
        r == xor_spec(a, b),
{
    let x = U256([a.l0, a.l1, a.l2, a.l3]) ^ U256([b.l0, b.l1, b.l2, b.l3]);
    Word { l0: x.0[0], l1: x.0[1], l2: x.0[2], l3: x.0[3] }
}

/// Relies on `Shl for U256`, which drops the bits shifted past bit 255.
#[verifier::external_body]
pub(crate) fn word_shl(a: Word, s: u64) -> (r: Word)
    requires
        s < 256,
    ensures
        r == shl_spec(a, s as nat),
{
    let x = U256([a.l0, a.l1, a.l2, a.l3]) << (s as usize);
    Word { l0: x.0[0], l1: x.0[1], l2: x.0[2], l3: x.0[3] }
}

/// Relies on `Shr for U256`: a logical shift right.
#[verifier::external_body]
pub(crate) fn word_shr(a: Word, s: u64) -> (r: Word)
    requires
        s < 256,
    ensures
        r == shr_spec(a, s as nat),
{
    let x = U256([a.l0, a.l1, a.l2, a.l3]) >> (s as usize);
    Word { l0: x.0[0], l1: x.0[1], l2: x.0[2], l3: x.0[3] }
}

/// Relies on `Ord for U256`, which compares limbs from the most significant.
#[verifier::external_body]
pub(crate) fn word_lt(a: Word, b: Word) -> (r: bool)
    ensures
        r == (a.value() < b.value()),
{
    U256([a.l0, a.l1, a.l2, a.l3]) < U256([b.l0, b.l1, b.l2, b.l3])
}

/// Relies on the derived `PartialEq for U256`, which compares the limbs.
#[verifier::external_body]
pub(crate) fn word_eq(a: Word, b: Word) -> (r: bool)
    ensures
        r == (a == b),
{
    U256([a.l0, a.l1, a.l2, a.l3]) == U256([b.l0, b.l1, b.l2, b.l3])
}

/// Relies on `U256::is_zero`.
#[verifier::external_body]
pub(crate) fn word_is_zero(a: Word) -> (r: bool)
    ensures
        r == (a.value() == 0),
{
    U256([a.l0, a.l1, a.l2, a.l3]).is_zero()
}

/// Relies on `U256::bit`: bit 255 is the top bit of the last limb.
#[verifier::external_body]
pub(crate) fn word_top_bit(a: Word) -> (r: bool)
    ensures
        r == (a.l3 >= 0x8000_0000_0000_0000u64),
{
    U256([a.l0, a.l1, a.l2, a.l3]).bit(255)
}

/// Relies on `U256::byte`: byte `i` counted from the least significant; it
/// panics for `i >= 32`.
#[verifier::external_body]
pub(crate) fn word_byte(a: Word, i: usize) -> (r: u8)
    requires
        i < 32,
    ensures
        r as nat == (a.value() / pow2((8 * i) as nat)) % 256,
{
    U256([a.l0, a.l1, a.l2, a.l3]).byte(i)
}

/// Relies on `U256::from_big_endian`, which panics on more than 32 bytes.
#[verifier::external_body]
pub(crate) fn word_from_be(bytes: &[u8]) -> (r: Word)
    requires
        bytes@.len() <= 32,
    ensures
        r == word_of(be_value(bytes@)),
{
    let x = U256::from_big_endian(bytes);
    Word { l0: x.0[0], l1: x.0[1], l2: x.0[2], l3: x.0[3] }
}

/// Relies on `U256::to_big_endian`: 32 bytes, most significant first.
#[verifier::external_body]
pub(crate) fn word_to_be(a: Word) -> (r: Vec<u8>)
    ensures
        r@ == be_bytes(a),
{
    let mut out = vec![0u8; 32];
    U256([a.l0, a.l1, a.l2, a.l3]).to_big_endian(&mut out);
    out
}

} // verus!
