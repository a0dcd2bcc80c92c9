//! Shifts, BYTE, GAS and INVALID.
use crate::evm::{result_is, EVM};
use crate::ops::{word_byte, word_not, word_shl, word_shr};
use crate::semantics::{
    binary, byte_op_spec, nth, pushed, sar_spec, shift_left, shift_right, EvmError, NextAction,
    StepOutcome,
};
use crate::stack::{pop_two, push_word};
use crate::word::{is_negative, modulus, word_of, Word};
use vstd::prelude::*;

verus! {

/// `v` shifted left by `shift` bits; zero from 256 bits on.
fn shift_left_word(shift: Word, v: Word) -> (r: Word)
    ensures
        r == shift_left(shift, v),
{
    match shift.to_u64() {
        Some(s) => if s < 256 {
            word_shl(v, s)
        } else {
            Word::zero()
        },
        None => Word::zero(),
    }
}

/// `v` shifted right by `shift` bits; zero from 256 bits on.
fn shift_right_word(shift: Word, v: Word) -> (r: Word)
    ensures
        r == shift_right(shift, v),
{
    match shift.to_u64() {
        Some(s) => if s < 256 {
            word_shr(v, s)
        } else {
            Word::zero()
        },
        None => Word::zero(),
    }
}

/// SHL: shifts the second word left by the top word.
pub fn shl(evm: &mut EVM) -> (r: Result<NextAction, EvmError>)
    ensures
        result_is(
            final(evm)@,
            r,
            binary(old(evm)@, shift_left(nth(old(evm)@, 0), nth(old(evm)@, 1))),
        ),
{
    if evm.stack.len() < 2 {
        return Err(EvmError::StackUnderflow);
    }
    let (a, b) = pop_two(evm);
    evm.stack.push(shift_left_word(a, b));
    Ok(NextAction::Continue)
}

/// SHR: shifts the second word right by the top word, logically.
pub fn shr(evm: &mut EVM) -> (r: Result<NextAction, EvmError>)
    ensures
        result_is(
            final(evm)@,
            r,
            binary(old(evm)@, shift_right(nth(old(evm)@, 0), nth(old(evm)@, 1))),
        ),
{
    if evm.stack.len() < 2 {
        return Err(EvmError::StackUnderflow);
    }
    let (a, b) = pop_two(evm);
    evm.stack.push(shift_right_word(a, b));
    Ok(NextAction::Continue)
}

/// SAR: shifts the second word right by the top word, copying the sign
/// bit into the vacated bits.
pub fn sar(evm: &mut EVM) -> (r: Result<NextAction, EvmError>)
    ensures
        result_is(
            final(evm)@,
            r,
            binary(old(evm)@, sar_spec(nth(old(evm)@, 0), nth(old(evm)@, 1))),
        ),
{
    if evm.stack.len() < 2 {
        return Err(EvmError::StackUnderflow);
    }
    let (a, b) = pop_two(evm);
    let r = if is_negative(&b) {
        word_not(shift_right_word(a, word_not(b)))
    } else {
        shift_right_word(a, b)
    };
    evm.stack.push(r);
    Ok(NextAction::Continue)
}

/// BYTE: byte number `top` of the second word, 0 being the most
/// significant; 0 for an index of 32 or more.
pub fn byte(evm: &mut EVM) -> (r: Result<NextAction, EvmError>)
    ensures
        result_is(
            final(evm)@,
            r,
            binary(old(evm)@, byte_op_spec(nth(old(evm)@, 0), nth(old(evm)@, 1))),
        ),
{
    if evm.stack.len() < 2 {
        return Err(EvmError::StackUnderflow);
    }
    let (a, b) = pop_two(evm);
    let r = match a.to_u64() {
        Some(i) => if i < 32 {
            Word::from_u64(word_byte(b, (31 - i) as usize) as u64)
        } else {
            Word::zero()
        },
        None => Word::zero(),
    };
    evm.stack.push(r);
    Ok(NextAction::Continue)
}

/// GAS: gas is not metered, so this pushes the largest word.
pub fn gas(evm: &mut EVM) -> (r: Result<NextAction, EvmError>)
    ensures
        result_is(final(evm)@, r, pushed(old(evm)@, word_of((modulus() - 1) as nat))),
{
    push_word(evm, Word::max_value())
}

/// INVALID: stops the run with status 1.
pub fn invalid(evm: &mut EVM) -> (r: Result<NextAction, EvmError>)
    ensures
        result_is(final(evm)@, r, StepOutcome::Halt(old(evm)@, 1)),
{
    Ok(NextAction::Exit(1))
}

} // verus!
