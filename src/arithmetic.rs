//! Arithmetic instructions, modulo 2^256.
use crate::evm::{result_is, EVM};
use crate::ops::{
    wide_rem, word_add, word_div_mod, word_full_mul, word_is_zero, word_mul, word_pow, word_sub,
};
use crate::semantics::{
    addmod_spec, binary, mulmod_spec, nth, sdiv_spec, smod_spec, ternary, with_stack, EvmError,
    NextAction,
};
use crate::stack::{pop_two};
use crate::word::{
    add_spec, div_spec, exp_spec, flip_sign, is_negative, mod_spec, mul_spec, sub_spec, Word,
};
use vstd::prelude::*;

verus! {

/// Unsigned quotient; zero for a zero divisor.
fn div_word(a: Word, b: Word) -> (r: Word)
    ensures
        r == div_spec(a, b),
{
    if word_is_zero(b) {
        Word::zero()
    } else {
        word_div_mod(a, b).0
    }
}

/// Unsigned remainder; zero for a zero divisor.
fn mod_word(a: Word, b: Word) -> (r: Word)
    ensures
        r == mod_spec(a, b),
{
    if word_is_zero(b) {
        Word::zero()
    } else {
        word_div_mod(a, b).1
    }
}

/// ADD: sum of the two top words.
pub fn add(evm: &mut EVM) -> (r: Result<NextAction, EvmError>)
    ensures
        result_is(
            final(evm)@,
            r,
            binary(old(evm)@, add_spec(nth(old(evm)@, 0), nth(old(evm)@, 1))),
        ),
{
    if evm.stack.len() < 2 {
        return Err(EvmError::StackUnderflow);
    }
    let (a, b) = pop_two(evm);
    evm.stack.push(word_add(a, b).0);
    Ok(NextAction::Continue)
}

/// MUL: product of the two top words.
pub fn mul(evm: &mut EVM) -> (r: Result<NextAction, EvmError>)
    ensures
        result_is(
            final(evm)@,
            r,
            binary(old(evm)@, mul_spec(nth(old(evm)@, 0), nth(old(evm)@, 1))),
        ),
{
    if evm.stack.len() < 2 {
        return Err(EvmError::StackUnderflow);
    }
    let (a, b) = pop_two(evm);
    evm.stack.push(word_mul(a, b));
    Ok(NextAction::Continue)
}

/// SUB: the top word minus the second.
pub fn sub(evm: &mut EVM) -> (r: Result<NextAction, EvmError>)
    ensures
        result_is(
            final(evm)@,
            r,
            binary(old(evm)@, sub_spec(nth(old(evm)@, 0), nth(old(evm)@, 1))),
        ),
{
    if evm.stack.len() < 2 {
        return Err(EvmError::StackUnderflow);
    }
    let (a, b) = pop_two(evm);
    evm.stack.push(word_sub(a, b));
    Ok(NextAction::Continue)
}

/// DIV: the top word divided by the second; 0 when the second is 0.
pub fn div(evm: &mut EVM) -> (r: Result<NextAction, EvmError>)
    ensures
        result_is(
            final(evm)@,
            r,
            binary(old(evm)@, div_spec(nth(old(evm)@, 0), nth(old(evm)@, 1))),
        ),
{
    if evm.stack.len() < 2 {
        return Err(EvmError::StackUnderflow);
    }
    let (a, b) = pop_two(evm);
    evm.stack.push(div_word(a, b));
    Ok(NextAction::Continue)
}

/// MOD: the top word modulo the second; 0 when the second is 0.
pub fn modulo(evm: &mut EVM) -> (r: Result<NextAction, EvmError>)
    ensures
        result_is(
            final(evm)@,
            r,
            binary(old(evm)@, mod_spec(nth(old(evm)@, 0), nth(old(evm)@, 1))),
        ),
{
    if evm.stack.len() < 2 {
        return Err(EvmError::StackUnderflow);
    }
    let (a, b) = pop_two(evm);
    evm.stack.push(mod_word(a, b));
    Ok(NextAction::Continue)
}

/// EXP: the top word raised to the second.
pub fn exp(evm: &mut EVM) -> (r: Result<NextAction, EvmError>)
    ensures
        result_is(
            final(evm)@,
            r,
            binary(old(evm)@, exp_spec(nth(old(evm)@, 0), nth(old(evm)@, 1))),
        ),
{
    if evm.stack.len() < 2 {
        return Err(EvmError::StackUnderflow);
    }
    let (a, b) = pop_two(evm);
    evm.stack.push(word_pow(a, b));
    Ok(NextAction::Continue)
}

/// SDIV: signed quotient, truncated toward zero.
pub fn s_div(evm: &mut EVM) -> (r: Result<NextAction, EvmError>)
    ensures
        result_is(
            final(evm)@,
            r,
            binary(old(evm)@, sdiv_spec(nth(old(evm)@, 0), nth(old(evm)@, 1))),
        ),
{
    if evm.stack.len() < 2 {
        return Err(EvmError::StackUnderflow);
    }
    let (a, b) = pop_two(evm);
    let na = is_negative(&a);
    let nb = is_negative(&b);
    let mut ma = a;
    if na {
        flip_sign(&mut ma);
    }
    let mut mb = b;
    if nb {
        flip_sign(&mut mb);
    }
    let mut q = div_word(ma, mb);
    if na != nb {
        flip_sign(&mut q);
    }
    evm.stack.push(q);
    Ok(NextAction::Continue)
}

/// SMOD: signed remainder, with the sign of the top word.
pub fn s_modulo(evm: &mut EVM) -> (r: Result<NextAction, EvmError>)
    ensures
        result_is(
            final(evm)@,
            r,
            binary(old(evm)@, smod_spec(nth(old(evm)@, 0), nth(old(evm)@, 1))),
        ),
{
    if evm.stack.len() < 2 {
        return Err(EvmError::StackUnderflow);
    }
    let (a, b) = pop_two(evm);
    let na = is_negative(&a);
    let nb = is_negative(&b);
    let mut ma = a;
    if na {
        flip_sign(&mut ma);
    }
    let mut mb = b;
    if nb {
        flip_sign(&mut mb);
    }
    let mut m = mod_word(ma, mb);
    if na {
        flip_sign(&mut m);
    }
    evm.stack.push(m);
    Ok(NextAction::Continue)
}

/// Removes the top three words and returns them, top first.
fn pop_three(evm: &mut EVM) -> (r: (Word, Word, Word))
    requires
        old(evm).stack@.len() >= 3,
    ensures
        r.0 == nth(old(evm)@, 0),
        r.1 == nth(old(evm)@, 1),
        r.2 == nth(old(evm)@, 2),
        final(evm)@ == with_stack(
            old(evm)@,
            old(evm).stack@.drop_last().drop_last().drop_last(),
        ),
{
    let a = evm.stack.pop().unwrap();
    let b = evm.stack.pop().unwrap();
    let n = evm.stack.pop().unwrap();
    (a, b, n)
}

/// ADDMOD: the sum of the two top words modulo the third, without wrapping
/// the sum at 2^256; 0 when the third is 0.
pub fn add_mod(evm: &mut EVM) -> (r: Result<NextAction, EvmError>)
    ensures
        result_is(
            final(evm)@,
            r,
            ternary(
                old(evm)@,
                addmod_spec(nth(old(evm)@, 0), nth(old(evm)@, 1), nth(old(evm)@, 2)),
            ),
        ),
{
    if evm.stack.len() < 3 {
        return Err(EvmError::StackUnderflow);
    }
    let (a, b, n) = pop_three(evm);
    let r = if word_is_zero(n) {
        Word::zero()
    } else {
        let (sum, carry) = word_add(a, b);
        let hi = Word::from_u64(if carry { 1 } else { 0 });
        wide_rem(sum, hi, n)
    };
    evm.stack.push(r);
    Ok(NextAction::Continue)
}

/// MULMOD: the product of the two top words modulo the third, without
/// wrapping the product at 2^256; 0 when the third is 0.
pub fn mul_mod(evm: &mut EVM) -> (r: Result<NextAction, EvmError>)
    ensures
        result_is(
            final(evm)@,
            r,
            ternary(
                old(evm)@,
                mulmod_spec(nth(old(evm)@, 0), nth(old(evm)@, 1), nth(old(evm)@, 2)),
            ),
        ),
{
    if evm.stack.len() < 3 {
        return Err(EvmError::StackUnderflow);
    }
    let (a, b, n) = pop_three(evm);
    let r = if word_is_zero(n) {
        Word::zero()
    } else {
        let (lo, hi) = word_full_mul(a, b);
        wide_rem(lo, hi, n)
    };
    evm.stack.push(r);
    Ok(NextAction::Continue)
}

} // verus!
