//! Comparison and bitwise instructions.
use crate::evm::{result_is, EVM};
use crate::ops::{word_and, word_eq, word_is_zero, word_lt, word_not, word_or, word_xor};
use crate::semantics::{
    binary, eq_word, gt_word, is_zero_word, lt_word, nth, sgt_word, slt_spec, slt_word, unary,
    EvmError, NextAction,
};
use crate::stack::{pop_one, pop_two};
use crate::word::{
    and_spec, flip_sign, is_negative, lemma_flip_sign_magnitude, lemma_value_bounds, not_spec,
    or_spec, xor_spec, Word,
};
use vstd::prelude::*;

verus! {

/// Signed less-than: a negative word is below a non-negative one; words of
/// one sign compare by magnitude.
pub fn signed_less(a: Word, b: Word) -> (r: bool)
    ensures
        r == slt_spec(a, b),
{
    proof {
        lemma_value_bounds(a);
        lemma_value_bounds(b);
    }
    let na = is_negative(&a);
    let nb = is_negative(&b);
    if na && !nb {
        true
    } else if !na && nb {
        false
    } else if !na && !nb {
        word_lt(a, b)
    } else {
        proof {
            lemma_flip_sign_magnitude(a);
            lemma_flip_sign_magnitude(b);
        }
        let mut fa = a;
        let mut fb = b;
        flip_sign(&mut fa);
        flip_sign(&mut fb);
        word_lt(fb, fa)
    }
}

/// LT: 1 when the top word is below the second, else 0.
pub fn lt(evm: &mut EVM) -> (r: Result<NextAction, EvmError>)
    ensures
        result_is(final(evm)@, r, binary(old(evm)@, lt_word(nth(old(evm)@, 0), nth(old(evm)@, 1)))),
{
    if evm.stack.len() < 2 {
        return Err(EvmError::StackUnderflow);
    }
    let (a, b) = pop_two(evm);
    evm.stack.push(Word::from_bool(word_lt(a, b)));
    Ok(NextAction::Continue)
}

/// GT: 1 when the top word is above the second, else 0.
pub fn gt(evm: &mut EVM) -> (r: Result<NextAction, EvmError>)
    ensures
        result_is(final(evm)@, r, binary(old(evm)@, gt_word(nth(old(evm)@, 0), nth(old(evm)@, 1)))),
{
    if evm.stack.len() < 2 {
        return Err(EvmError::StackUnderflow);
    }
    let (a, b) = pop_two(evm);
    evm.stack.push(Word::from_bool(word_lt(b, a)));
    Ok(NextAction::Continue)
}

/// SLT: signed less-than.
pub fn slt(evm: &mut EVM) -> (r: Result<NextAction, EvmError>)
    ensures
        result_is(
            final(evm)@,
            r,
            binary(old(evm)@, slt_word(nth(old(evm)@, 0), nth(old(evm)@, 1))),
        ),
{
    if evm.stack.len() < 2 {
        return Err(EvmError::StackUnderflow);
    }
    let (a, b) = pop_two(evm);
    evm.stack.push(Word::from_bool(signed_less(a, b)));
    Ok(NextAction::Continue)
}

/// SGT: signed greater-than.
pub fn sgt(evm: &mut EVM) -> (r: Result<NextAction, EvmError>)
    ensures
        result_is(
            final(evm)@,
            r,
            binary(old(evm)@, sgt_word(nth(old(evm)@, 0), nth(old(evm)@, 1))),
        ),
{
    if evm.stack.len() < 2 {
        return Err(EvmError::StackUnderflow);
    }
    let (a, b) = pop_two(evm);
    evm.stack.push(Word::from_bool(signed_less(b, a)));
    Ok(NextAction::Continue)
}

/// EQ: 1 when the two top words are equal, else 0.
pub fn eq(evm: &mut EVM) -> (r: Result<NextAction, EvmError>)
    ensures
        result_is(final(evm)@, r, binary(old(evm)@, eq_word(nth(old(evm)@, 0), nth(old(evm)@, 1)))),
{
    if evm.stack.len() < 2 {
        return Err(EvmError::StackUnderflow);
    }
    let (a, b) = pop_two(evm);
    evm.stack.push(Word::from_bool(word_eq(a, b)));
    Ok(NextAction::Continue)
}

/// ISZERO: 1 when the top word is zero, else 0.
pub fn is_zero(evm: &mut EVM) -> (r: Result<NextAction, EvmError>)
    ensures
        result_is(final(evm)@, r, unary(old(evm)@, is_zero_word(nth(old(evm)@, 0)))),
{
    if evm.stack.len() < 1 {
        return Err(EvmError::StackUnderflow);
    }
    let a = pop_one(evm);
    evm.stack.push(Word::from_bool(word_is_zero(a)));
    Ok(NextAction::Continue)
}

/// NOT: complements every bit.
pub fn not(evm: &mut EVM) -> (r: Result<NextAction, EvmError>)
    ensures
        result_is(final(evm)@, r, unary(old(evm)@, not_spec(nth(old(evm)@, 0)))),
{
    if evm.stack.len() < 1 {
        return Err(EvmError::StackUnderflow);
    }
    let a = pop_one(evm);
    evm.stack.push(word_not(a));
    Ok(NextAction::Continue)
}

/// AND: bitwise and.
pub fn and(evm: &mut EVM) -> (r: Result<NextAction, EvmError>)
    ensures
        result_is(
            final(evm)@,
            r,
            binary(old(evm)@, and_spec(nth(old(evm)@, 0), nth(old(evm)@, 1))),
        ),
{
    if evm.stack.len() < 2 {
        return Err(EvmError::StackUnderflow);
    }
    let (a, b) = pop_two(evm);
    evm.stack.push(word_and(a, b));
    Ok(NextAction::Continue)
}

/// OR: bitwise or.
pub fn or(evm: &mut EVM) -> (r: Result<NextAction, EvmError>)
    ensures
        result_is(final(evm)@, r, binary(old(evm)@, or_spec(nth(old(evm)@, 0), nth(old(evm)@, 1)))),
{
    if evm.stack.len() < 2 {
        return Err(EvmError::StackUnderflow);
    }
    let (a, b) = pop_two(evm);
    evm.stack.push(word_or(a, b));
    Ok(NextAction::Continue)
}

/// XOR: bitwise exclusive or.
pub fn xor(evm: &mut EVM) -> (r: Result<NextAction, EvmError>)
    ensures
        result_is(
            final(evm)@,
            r,
            binary(old(evm)@, xor_spec(nth(old(evm)@, 0), nth(old(evm)@, 1))),
        ),
{
    if evm.stack.len() < 2 {
        return Err(EvmError::StackUnderflow);
    }
    let (a, b) = pop_two(evm);
    evm.stack.push(word_xor(a, b));
    Ok(NextAction::Continue)
}

} // verus!
