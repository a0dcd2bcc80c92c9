use vstd::arithmetic::power::pow;
use vstd::arithmetic::power2::pow2;
use crate::ops::{word_add, word_not, word_top_bit};
use vstd::prelude::*;

verus! {

/// Number of distinct values of one limb, 2^64.
pub open spec fn limb_base() -> nat {
    0x1_0000_0000_0000_0000
}

/// Number of distinct words, 2^256.
pub open spec fn modulus() -> nat {
    limb_base() * limb_base() * limb_base() * limb_base()
}

/// Smallest word whose sign bit is set, 2^255.
pub open spec fn sign_threshold() -> nat {
    modulus() / 2
}

/// A 256-bit machine word, held as four 64-bit limbs, least significant first.
#[derive(Clone, Copy, Debug, PartialEq, Eq, Structural)]
pub struct Word {
    pub l0: u64,
    pub l1: u64,
    pub l2: u64,
    pub l3: u64,
}

impl Word {
    /// The unsigned integer that the word holds.
    pub open spec fn value(self) -> nat {
        self.l0 as nat + limb_base() * (self.l1 as nat + limb_base() * (self.l2 as nat
            + limb_base() * self.l3 as nat))
    }

    pub fn zero() -> (r: Word)
        ensures
            r == word_of(0),
    {
        Word { l0: 0, l1: 0, l2: 0, l3: 0 }
    }

    pub fn from_u64(x: u64) -> (r: Word)
        ensures
            r == word_of(x as nat),
            r.value() == x,
    {
        assert(x as nat % limb_base() == x as nat);
        Word { l0: x, l1: 0, l2: 0, l3: 0 }
    }

    /// The word with all 256 bits set.
    pub fn max_value() -> (r: Word)
        ensures
            r == word_of((modulus() - 1) as nat),
            r.value() == modulus() - 1,
    {
        let m = u64::MAX;
        let r = Word { l0: m, l1: m, l2: m, l3: m };
        proof {
            lemma_word_of_value(r);
        }
        r
    }

    /// One for true, zero for false.
    pub fn from_bool(b: bool) -> (r: Word)
        ensures
            r == bool_word(b),
    {
        if b {
            Word::from_u64(1)
        } else {
            Word::from_u64(0)
        }
    }

    /// The least significant byte.
    pub fn low_byte(&self) -> (r: u8)
        ensures
            r as nat == self.value() % 256,
    {
        proof {
            lemma_value_bounds(*self);
            assert(self.value() % 256 == self.l0 as nat % 256) by (nonlinear_arith)
                requires
                    self.value() == self.l0 as nat + limb_base() * (self.l1 as nat + limb_base()
                        * (self.l2 as nat + limb_base() * self.l3 as nat)),
                    limb_base() == 256 * 0x100_0000_0000_0000nat,
            ;
        }
        (self.l0 % 256) as u8
    }

    /// The value as a `u64`, where it fits.
    pub fn to_u64(&self) -> (r: Option<u64>)
        ensures
            r.is_some() <==> self.value() < limb_base(),
            r.is_some() ==> r.unwrap() as nat == self.value(),
    {
        if self.l1 == 0 && self.l2 == 0 && self.l3 == 0 {
            Some(self.l0)
        } else {
            proof {
                lemma_value_bounds(*self);
            }
            None
        }
    }
}

/// The word that holds `v` modulo 2^256.
pub open spec fn word_of(v: nat) -> Word {
    Word {
        l0: (v % limb_base()) as u64,
        l1: ((v / limb_base()) % limb_base()) as u64,
        l2: ((v / limb_base() / limb_base()) % limb_base()) as u64,
        l3: ((v / limb_base() / limb_base() / limb_base()) % limb_base()) as u64,
    }
}

pub open spec fn bool_word(b: bool) -> Word {
    if b {
        word_of(1)
    } else {
        word_of(0)
    }
}

/// Value of a word read as a two's-complement signed integer.
pub open spec fn signed_value(w: Word) -> int {
    if w.value() >= sign_threshold() {
        w.value() - modulus()
    } else {
        w.value() as int
    }
}

pub open spec fn is_negative_spec(w: Word) -> bool {
    w.value() >= sign_threshold()
}

pub open spec fn add_spec(a: Word, b: Word) -> Word {
    word_of((a.value() + b.value()) as nat)
}

pub open spec fn sub_spec(a: Word, b: Word) -> Word {
    word_of((a.value() + modulus() - b.value()) as nat)
}

pub open spec fn mul_spec(a: Word, b: Word) -> Word {
    word_of(a.value() * b.value())
}

pub open spec fn div_spec(a: Word, b: Word) -> Word {
    if b.value() == 0 {
        word_of(0)
    } else {
        word_of(a.value() / b.value())
    }
}

pub open spec fn mod_spec(a: Word, b: Word) -> Word {
    if b.value() == 0 {
        word_of(0)
    } else {
        word_of(a.value() % b.value())
    }
}

pub open spec fn exp_spec(a: Word, b: Word) -> Word {
    word_of((pow(a.value() as int, b.value()) % (modulus() as int)) as nat)
}

pub open spec fn not_spec(a: Word) -> Word {
    Word { l0: !a.l0, l1: !a.l1, l2: !a.l2, l3: !a.l3 }
}

pub open spec fn and_spec(a: Word, b: Word) -> Word {
    Word { l0: a.l0 & b.l0, l1: a.l1 & b.l1, l2: a.l2 & b.l2, l3: a.l3 & b.l3 }
}

pub open spec fn or_spec(a: Word, b: Word) -> Word {
    Word { l0: a.l0 | b.l0, l1: a.l1 | b.l1, l2: a.l2 | b.l2, l3: a.l3 | b.l3 }
}

pub open spec fn xor_spec(a: Word, b: Word) -> Word {
    Word { l0: a.l0 ^ b.l0, l1: a.l1 ^ b.l1, l2: a.l2 ^ b.l2, l3: a.l3 ^ b.l3 }
}

/// Left shift by `s` bits, bits above 255 dropped.
pub open spec fn shl_spec(a: Word, s: nat) -> Word {
    word_of(a.value() * pow2(s))
}

/// Logical right shift by `s` bits.
pub open spec fn shr_spec(a: Word, s: nat) -> Word {
    word_of(a.value() / pow2(s))
}

/// Two's-complement negation.
pub open spec fn flip_sign_spec(a: Word) -> Word {
    word_of((modulus() - a.value()) as nat)
}

/// Byte `i` of the word, counted from the most significant byte.
pub open spec fn byte_spec(a: Word, i: nat) -> nat {
    (a.value() / pow2((8 * (31 - i)) as nat)) % 256
}

pub proof fn lemma_value_bounds(w: Word)
    ensures
        w.value() < modulus(),
        w.value() >= w.l3 as nat * (limb_base() * limb_base() * limb_base()),
        w.value() < (w.l3 as nat + 1) * (limb_base() * limb_base() * limb_base()),
        w.value() % limb_base() == w.l0,
        w.value() / limb_base() == w.l1 as nat + limb_base() * (w.l2 as nat + limb_base()
            * w.l3 as nat),
        (w.l1 == 0 && w.l2 == 0 && w.l3 == 0) <==> w.value() < limb_base(),
{
    let b = limb_base();
    let x0 = w.l0 as nat;
    let x1 = w.l1 as nat;
    let x2 = w.l2 as nat;
    let x3 = w.l3 as nat;
    let hi = x1 + b * (x2 + b * x3);
    assert(x2 + b * x3 < b * b) by (nonlinear_arith)
        requires
            x2 < b,
            x3 < b,
    ;
    assert(hi < b * b * b) by (nonlinear_arith)
        requires
            hi == x1 + b * (x2 + b * x3),
            x1 < b,
            x2 + b * x3 < b * b,
    ;
    assert(w.value() == x0 + b * hi);
    assert(x0 + b * hi < b * b * b * b) by (nonlinear_arith)
        requires
            x0 < b,
            hi < b * b * b,
    ;
    assert(hi >= x3 * (b * b) && hi < (x3 + 1) * (b * b)) by (nonlinear_arith)
        requires
            hi == x1 + b * (x2 + b * x3),
            x1 < b,
            x2 < b,
            b > 0,
    ;
    assert(x0 + b * hi >= x3 * (b * b * b) && x0 + b * hi < (x3 + 1) * (b * b * b))
        by (nonlinear_arith)
        requires
            hi >= x3 * (b * b),
            hi < (x3 + 1) * (b * b),
            x0 < b,
            b > 0,
    ;
    vstd::arithmetic::div_mod::lemma_fundamental_div_mod_converse(
        (x0 + b * hi) as int,
        b as int,
        hi as int,
        x0 as int,
    );
    assert((x0 + b * hi) as int == b * hi + x0);
    assert(hi == 0 <==> (x1 == 0 && x2 == 0 && x3 == 0)) by (nonlinear_arith)
        requires
            hi == x1 + b * (x2 + b * x3),
            b > 0,
    ;
    assert(hi == 0 <==> x0 + b * hi < b) by (nonlinear_arith)
        requires
            x0 < b,
            b > 0,
    ;
}

/// Each word is the word of its own value.
pub proof fn lemma_word_of_value(w: Word)
    ensures
        word_of(w.value()) == w,
{
    let b = limb_base();
    let x0 = w.l0 as nat;
    let x1 = w.l1 as nat;
    let x2 = w.l2 as nat;
    let x3 = w.l3 as nat;
    let v = w.value();
    let h1 = x1 + b * (x2 + b * x3);
    let h2 = x2 + b * x3;
    vstd::arithmetic::div_mod::lemma_fundamental_div_mod_converse(
        v as int,
        b as int,
        h1 as int,
        x0 as int,
    );
    assert(x2 + b * x3 < b * b) by (nonlinear_arith)
        requires
            x2 < b,
            x3 < b,
    ;
    vstd::arithmetic::div_mod::lemma_fundamental_div_mod_converse(
        h1 as int,
        b as int,
        h2 as int,
        x1 as int,
    );
    vstd::arithmetic::div_mod::lemma_fundamental_div_mod_converse(
        h2 as int,
        b as int,
        x3 as int,
        x2 as int,
    );
    vstd::arithmetic::div_mod::lemma_small_mod(x3, b);
    vstd::arithmetic::div_mod::lemma_small_mod(x2, b);
    vstd::arithmetic::div_mod::lemma_small_mod(x1, b);
}

/// The word of a value below 2^256 holds that value.
pub proof fn lemma_value_word_of(v: nat)
    requires
        v < modulus(),
    ensures
        word_of(v).value() == v,
{
    let b = limb_base();
    let w = word_of(v);
    let q1 = v / b;
    let q2 = q1 / b;
    let q3 = q2 / b;
    vstd::arithmetic::div_mod::lemma_fundamental_div_mod(v as int, b as int);
    vstd::arithmetic::div_mod::lemma_fundamental_div_mod(q1 as int, b as int);
    vstd::arithmetic::div_mod::lemma_fundamental_div_mod(q2 as int, b as int);
    vstd::arithmetic::div_mod::lemma_div_denominator(v as int, b as int, b as int);
    vstd::arithmetic::div_mod::lemma_div_denominator(v as int, (b * b) as int, b as int);
    assert(b * b * b * b == (b * b * b) * b) by (nonlinear_arith);
    assert(b * b * b == (b * b) * b) by (nonlinear_arith);
    vstd::arithmetic::div_mod::lemma_multiply_divide_lt(v as int, (b * b * b) as int, b as int);
    vstd::arithmetic::div_mod::lemma_small_mod(q3, b);
    assert(w.l0 as nat == v % b);
    assert(w.l1 as nat == q1 % b);
    assert(w.l2 as nat == q2 % b);
    assert(w.l3 as nat == q3 % b);
}

/// The complement of a word adds up with it to the all-ones word.
pub proof fn lemma_not_value(a: Word)
    ensures
        not_spec(a).value() + a.value() == modulus() - 1,
{
    let n = not_spec(a);
    assert(forall|x: u64| #[trigger] (!x) as nat + x as nat == 0xffff_ffff_ffff_ffffnat) by {
        assert(forall|x: u64| #[trigger] (!x) == 0xffff_ffff_ffff_ffffu64 - x) by (bit_vector);
    }
    let b = limb_base();
    let (x0, x1, x2, x3) = (a.l0 as nat, a.l1 as nat, a.l2 as nat, a.l3 as nat);
    let (y0, y1, y2, y3) = (n.l0 as nat, n.l1 as nat, n.l2 as nat, n.l3 as nat);
    assert(y0 + x0 == b - 1 && y1 + x1 == b - 1 && y2 + x2 == b - 1 && y3 + x3 == b - 1);
    assert((y0 + b * (y1 + b * (y2 + b * y3))) + (x0 + b * (x1 + b * (x2 + b * x3))) == b * b
        * b * b - 1) by (nonlinear_arith)
        requires
            y0 + x0 == b - 1,
            y1 + x1 == b - 1,
            y2 + x2 == b - 1,
            y3 + x3 == b - 1,
    ;
}

/// Checks the sign bit of a word (bit 255).
pub fn is_negative(num: &Word) -> (r: bool)
    ensures
        r == is_negative_spec(*num),
{
    proof {
        lemma_value_bounds(*num);
        let c = limb_base() * limb_base() * limb_base();
        assert(sign_threshold() == 0x8000_0000_0000_0000nat * c);
        if num.l3 >= 0x8000_0000_0000_0000u64 {
            assert(num.l3 as nat * c >= 0x8000_0000_0000_0000nat * c) by (nonlinear_arith)
                requires
                    num.l3 as nat >= 0x8000_0000_0000_0000nat,
                    c > 0,
            ;
        } else {
            assert((num.l3 as nat + 1) * c <= 0x8000_0000_0000_0000nat * c) by (nonlinear_arith)
                requires
                    num.l3 as nat + 1 <= 0x8000_0000_0000_0000nat,
                    c > 0,
            ;
        }
    }
    word_top_bit(*num)
}

/// Negates a word in two's complement (complement, then add one), wrapping
/// at 2^256.
pub fn flip_sign(num: &mut Word)
    ensures
        *final(num) == flip_sign_spec(*old(num)),
{
    let one = Word::from_u64(1);
    let c = word_not(*num);
    proof {
        lemma_not_value(*num);
        lemma_value_bounds(*num);
    }
    *num = word_add(c, one).0;
}

/// Negating twice gives the word back, zero and 2^255 included.
pub proof fn lemma_flip_sign_involutive(a: Word)
    ensures
        flip_sign_spec(flip_sign_spec(a)) == a,
{
    lemma_value_bounds(a);
    let v = a.value();
    if v == 0 {
        lemma_word_of_value(a);
        assert(modulus()
            == 0x1_0000_0000_0000_0000_0000_0000_0000_0000_0000_0000_0000_0000_0000_0000_0000_0000nat);
        assert(word_of(modulus()) == word_of(0));
        lemma_value_word_of(0);
    } else {
        lemma_value_word_of((modulus() - v) as nat);
        lemma_word_of_value(a);
    }
}

/// On a negative word, negation gives its magnitude: the word of minus its
/// signed value.
pub proof fn lemma_flip_sign_magnitude(a: Word)
    requires
        is_negative_spec(a),
    ensures
        flip_sign_spec(a).value() == modulus() - a.value(),
        flip_sign_spec(a).value() == -signed_value(a),
{
    lemma_value_bounds(a);
    lemma_value_word_of((modulus() - a.value()) as nat);
}

} // verus!
