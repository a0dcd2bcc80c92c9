use evm::arithmetic::{add, add_mod, div, exp, modulo, mul, mul_mod, s_div, s_modulo, sub};
use evm::evm::EVM;
use evm::logic::{and, eq, gt, is_zero, lt, not, or, sgt, slt, xor};
use evm::misc::{byte, sar, shl, shr};
use evm::semantics::{EvmError, NextAction};
use evm::stack::{dup_n, swap_n};
use evm::word::{flip_sign, is_negative, Word};

type Handler = fn(&mut EVM) -> Result<NextAction, EvmError>;

fn w(x: u64) -> Word {
    Word::from_u64(x)
}

fn neg(x: u64) -> Word {
    let mut v = w(x);
    flip_sign(&mut v);
    v
}

fn high_bit() -> Word {
    Word { l0: 0, l1: 0, l2: 0, l3: 1 << 63 }
}

/// Applies a two-operand handler with `a` on top and `b` below it.
fn apply2(h: Handler, a: Word, b: Word) -> Word {
    let mut m = EVM::new();
    m.stack.push(b);
    m.stack.push(a);
    assert_eq!(h(&mut m), Ok(NextAction::Continue));
    assert_eq!(m.stack.len(), 1);
    m.stack[0]
}

fn apply1(h: Handler, a: Word) -> Word {
    let mut m = EVM::new();
    m.stack.push(a);
    assert_eq!(h(&mut m), Ok(NextAction::Continue));
    assert_eq!(m.stack.len(), 1);
    m.stack[0]
}

#[test]
fn lt_is_flipped_gt() {
    let pairs = [(w(1), w(2)), (w(2), w(1)), (w(5), w(5)), (Word::max_value(), w(0))];
    for (a, b) in pairs {
        assert_eq!(apply2(lt, a, b), apply2(gt, b, a));
    }
    assert_eq!(apply2(lt, w(1), w(2)), w(1));
    assert_eq!(apply2(gt, w(1), w(2)), w(0));
}

#[test]
fn eq_and_is_zero() {
    assert_eq!(apply2(eq, w(7), w(7)), w(1));
    assert_eq!(apply2(eq, w(7), w(8)), w(0));
    assert_eq!(apply2(eq, w(8), w(7)), apply2(eq, w(7), w(8)));
    assert_eq!(apply1(is_zero, w(0)), apply2(eq, w(0), w(0)));
    assert_eq!(apply1(is_zero, high_bit()), w(0));
}

#[test]
fn not_and_or_laws() {
    let a = Word { l0: 0x1234, l1: 0, l2: u64::MAX, l3: 5 };
    let na = apply1(not, a);
    assert_eq!(na, Word { l0: !0x1234, l1: u64::MAX, l2: 0, l3: !5 });
    assert_eq!(apply1(not, na), a);
    assert_eq!(apply2(and, a, na), w(0));
    assert_eq!(apply2(or, a, na), Word::max_value());
    assert_eq!(apply2(xor, w(0b1100), w(0b1010)), w(0b0110));
    assert_eq!(apply2(and, w(0b1100), w(0b1010)), w(0b1000));
}

#[test]
fn signed_comparisons() {
    let minus_one = Word::max_value();
    assert_eq!(apply2(slt, minus_one, w(0)), w(1));
    assert_eq!(apply2(slt, w(0), minus_one), w(0));
    assert_eq!(apply2(slt, neg(5), neg(3)), w(1));
    assert_eq!(apply2(slt, neg(3), neg(5)), w(0));
    assert_eq!(apply2(slt, w(3), w(3)), w(0));
    assert_eq!(apply2(slt, w(2), w(3)), w(1));
    for (a, b) in [(minus_one, w(0)), (neg(5), neg(3)), (w(2), w(9))] {
        assert_eq!(apply2(sgt, a, b), apply2(slt, b, a));
    }
}

#[test]
fn flip_sign_twice_is_identity() {
    for a in [w(0), w(1), w(12345), high_bit(), Word::max_value()] {
        let mut b = a;
        flip_sign(&mut b);
        flip_sign(&mut b);
        assert_eq!(a, b);
    }
    let mut z = w(0);
    flip_sign(&mut z);
    assert_eq!(z, w(0));
    let mut h = high_bit();
    flip_sign(&mut h);
    assert_eq!(h, high_bit());
    assert_eq!(neg(1), Word::max_value());
}

#[test]
fn sign_bit() {
    assert!(is_negative(&high_bit()));
    assert!(is_negative(&Word::max_value()));
    assert!(!is_negative(&w(1)));
    assert!(!is_negative(&Word { l0: 0, l1: 0, l2: 0, l3: (1 << 63) - 1 }));
}

#[test]
fn arithmetic_values() {
    assert_eq!(apply2(add, Word::max_value(), w(2)), w(1));
    assert_eq!(apply2(mul, w(6), w(7)), w(42));
    let two_64 = Word { l0: 0, l1: 1, l2: 0, l3: 0 };
    let two_192 = Word { l0: 0, l1: 0, l2: 0, l3: 1 };
    assert_eq!(apply2(mul, two_64, two_192), w(0));
    assert_eq!(apply2(sub, w(10), w(3)), w(7));
    assert_eq!(apply2(div, w(10), w(3)), w(3));
    assert_eq!(apply2(div, w(10), w(0)), w(0));
    assert_eq!(apply2(modulo, w(10), w(3)), w(1));
    assert_eq!(apply2(modulo, w(10), w(0)), w(0));
    assert_eq!(apply2(exp, w(2), w(10)), w(1024));
    assert_eq!(apply2(exp, w(2), w(256)), w(0));
    assert_eq!(apply2(exp, w(3), w(0)), w(1));
}

#[test]
fn signed_division() {
    assert_eq!(apply2(s_div, neg(10), w(3)), neg(3));
    assert_eq!(apply2(s_div, neg(10), neg(3)), w(3));
    assert_eq!(apply2(s_div, w(10), w(0)), w(0));
    assert_eq!(apply2(s_modulo, neg(10), w(3)), neg(1));
    assert_eq!(apply2(s_modulo, w(10), neg(3)), w(1));
}

#[test]
fn shifts() {
    assert_eq!(apply2(shl, w(4), w(1)), w(16));
    assert_eq!(apply2(shl, w(64), w(1)), Word { l0: 0, l1: 1, l2: 0, l3: 0 });
    assert_eq!(apply2(shl, w(256), w(1)), w(0));
    assert_eq!(apply2(shl, w(255), w(2)), w(0));
    assert_eq!(apply2(shr, w(4), w(16)), w(1));
    assert_eq!(apply2(shr, w(1), w(1)), w(0));
    assert_eq!(apply2(shr, Word::max_value(), w(1)), w(0));
}

// SAR is a true arithmetic shift: a negative word shifted by 8 or more bits
// stays negative (-1 >> 8 is -1), rather than the flip-shift-flip
// approximation, which would give 0 there.
#[test]
fn arithmetic_shift_right() {
    assert_eq!(apply2(sar, w(1), w(16)), w(8));
    assert_eq!(apply2(sar, w(1), neg(16)), neg(8));
    assert_eq!(apply2(sar, w(8), neg(1)), neg(1));
    assert_eq!(apply2(sar, w(300), neg(5)), Word::max_value());
    assert_eq!(apply2(sar, w(300), w(5)), w(0));
}

#[test]
fn byte_picks_from_the_top() {
    let v = Word { l0: 0xff, l1: 0, l2: 0, l3: 0xab00_0000_0000_0000 };
    assert_eq!(apply2(byte, w(0), v), w(0xab));
    assert_eq!(apply2(byte, w(31), v), w(0xff));
    assert_eq!(apply2(byte, w(30), v), w(0));
    assert_eq!(apply2(byte, w(32), v), w(0));
}

#[test]
fn dup1_on_single_element() {
    let mut m = EVM::new();
    m.stack.push(w(42));
    assert_eq!(dup_n(&mut m, 1), Ok(NextAction::Continue));
    assert_eq!(m.stack, vec![w(42), w(42)]);
}

#[test]
fn dup3_copies_third() {
    let mut m = EVM::new();
    m.stack = vec![w(1), w(2), w(3)];
    assert_eq!(dup_n(&mut m, 3), Ok(NextAction::Continue));
    assert_eq!(m.stack, vec![w(1), w(2), w(3), w(1)]);
}

#[test]
fn swap1_on_two_elements() {
    let mut m = EVM::new();
    m.stack = vec![w(1), w(2)];
    assert_eq!(swap_n(&mut m, 1), Ok(NextAction::Continue));
    assert_eq!(m.stack, vec![w(2), w(1)]);
}

#[test]
fn swap2_leaves_middle() {
    let mut m = EVM::new();
    m.stack = vec![w(1), w(2), w(3)];
    assert_eq!(swap_n(&mut m, 2), Ok(NextAction::Continue));
    assert_eq!(m.stack, vec![w(3), w(2), w(1)]);
}

#[test]
fn dup_swap_underflow() {
    let mut m = EVM::new();
    assert_eq!(dup_n(&mut m, 1), Err(EvmError::StackUnderflow));
    m.stack.push(w(1));
    assert_eq!(swap_n(&mut m, 1), Err(EvmError::StackUnderflow));
    assert_eq!(dup_n(&mut m, 2), Err(EvmError::StackUnderflow));
    assert_eq!(m.stack, vec![w(1)]);
}

fn apply3(h: Handler, a: Word, b: Word, n: Word) -> Word {
    let mut m = EVM::new();
    m.stack.push(n);
    m.stack.push(b);
    m.stack.push(a);
    assert_eq!(h(&mut m), Ok(NextAction::Continue));
    assert_eq!(m.stack.len(), 1);
    m.stack[0]
}

#[test]
fn addmod_and_mulmod_do_not_wrap() {
    assert_eq!(apply3(add_mod, w(10), w(5), w(7)), w(1));
    assert_eq!(apply3(add_mod, w(10), w(5), w(0)), w(0));
    // (2^256 - 1) + 2 = 2^256 + 1; 2^256 mod 10 = 6, so the sum is 7 mod 10
    assert_eq!(apply3(add_mod, Word::max_value(), w(2), w(10)), w(7));
    assert_eq!(apply3(mul_mod, w(10), w(5), w(7)), w(1));
    assert_eq!(apply3(mul_mod, w(10), w(5), w(0)), w(0));
    // (2^256 - 1)^2 mod (2^256 - 1) = 0, mod 2^64 = 1
    assert_eq!(apply3(mul_mod, Word::max_value(), Word::max_value(), Word::max_value()), w(0));
    assert_eq!(
        apply3(mul_mod, Word::max_value(), Word::max_value(), Word { l0: 0, l1: 1, l2: 0, l3: 0 }),
        w(1)
    );
}

#[test]
fn ternary_underflow() {
    let mut m = EVM::new();
    m.stack.push(w(1));
    m.stack.push(w(2));
    assert_eq!(add_mod(&mut m), Err(EvmError::StackUnderflow));
    assert_eq!(mul_mod(&mut m), Err(EvmError::StackUnderflow));
}
