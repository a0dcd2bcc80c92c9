//! Stack and control-flow instructions.
use crate::evm::{result_is, EVM};
use crate::jumpdest::find_jumpdest;
use crate::ops::word_from_be;
use crate::semantics::{
    dup_spec, jump_spec, jumpi_spec, nth, push_spec, pushed, swap_spec, with_stack, EvmError,
    MState, NextAction, StepOutcome, STACK_LIMIT,
};
use crate::word::{lemma_value_bounds, word_of, Word};
use vstd::prelude::*;
use vstd::slice::slice_subrange;

verus! {

/// Removes and returns the top word.
pub(crate) fn pop_one(evm: &mut EVM) -> (a: Word)
    requires
        old(evm).stack@.len() >= 1,
    ensures
        a == nth(old(evm)@, 0),
        final(evm)@ == with_stack(old(evm)@, old(evm).stack@.drop_last()),
{
    evm.stack.pop().unwrap()
}

/// Removes the top two words and returns them, top first.
pub(crate) fn pop_two(evm: &mut EVM) -> (r: (Word, Word))
    requires
        old(evm).stack@.len() >= 2,
    ensures
        r.0 == nth(old(evm)@, 0),
        r.1 == nth(old(evm)@, 1),
        final(evm)@ == with_stack(old(evm)@, old(evm).stack@.drop_last().drop_last()),
{
    let a = evm.stack.pop().unwrap();
    let b = evm.stack.pop().unwrap();
    (a, b)
}

/// Pushes a word, failing at the stack limit.
pub(crate) fn push_word(evm: &mut EVM, w: Word) -> (r: Result<NextAction, EvmError>)
    ensures
        result_is(final(evm)@, r, pushed(old(evm)@, w)),
{
    if evm.stack.len() >= STACK_LIMIT {
        return Err(EvmError::StackOverflow);
    }
    evm.stack.push(w);
    Ok(NextAction::Continue)
}

/// POP: drops the top word.
pub fn pop(evm: &mut EVM) -> (r: Result<NextAction, EvmError>)
    ensures
        result_is(
            final(evm)@,
            r,
            if old(evm).stack@.len() < 1 {
                StepOutcome::Fail(EvmError::StackUnderflow)
            } else {
                StepOutcome::Next(with_stack(old(evm)@, old(evm).stack@.drop_last()))
            },
        ),
{
    if evm.stack.len() < 1 {
        return Err(EvmError::StackUnderflow);
    }
    pop_one(evm);
    Ok(NextAction::Continue)
}

/// Looks a target word up among the jump targets.
fn jump_target(evm: &EVM, t: Word) -> (r: Option<usize>)
    requires
        evm.wf(),
    ensures
        r is Some <==> exists|k: int|
            0 <= k < evm.jumpdests@.len() && #[trigger] evm.jumpdests@[k] as nat == t.value(),
        r is Some ==> r.unwrap() as nat == t.value(),
{
    match t.to_u64() {
        Some(x) => find_jumpdest(&evm.jumpdests, x),
        None => None,
    }
}

/// JUMP: moves the program counter to the target on top of the stack, which
/// must be a JUMPDEST.
pub fn jump(evm: &mut EVM) -> (r: Result<NextAction, EvmError>)
    requires
        old(evm).wf(),
    ensures
        result_is(final(evm)@, r, jump_spec(old(evm)@)),
{
    if evm.stack.len() < 1 {
        return Err(EvmError::StackUnderflow);
    }
    let t = evm.stack[evm.stack.len() - 1];
    match jump_target(evm, t) {
        Some(p) => {
            pop_one(evm);
            evm.pc = p;
            Ok(NextAction::Continue)
        },
        None => Err(EvmError::InvalidJump),
    }
}

/// JUMPI: jumps as JUMP does when the second word is not zero.
pub fn jumpi(evm: &mut EVM) -> (r: Result<NextAction, EvmError>)
    requires
        old(evm).wf(),
    ensures
        result_is(final(evm)@, r, jumpi_spec(old(evm)@)),
{
    if evm.stack.len() < 2 {
        return Err(EvmError::StackUnderflow);
    }
    let t = evm.stack[evm.stack.len() - 1];
    let c = evm.stack[evm.stack.len() - 2];
    if c.to_u64() == Some(0u64) {
        pop_two(evm);
        return Ok(NextAction::Continue);
    }
    proof {
        lemma_value_bounds(c);
    }
    match jump_target(evm, t) {
        Some(p) => {
            pop_two(evm);
            evm.pc = p;
            Ok(NextAction::Continue)
        },
        None => Err(EvmError::InvalidJump),
    }
}

/// PC: pushes the offset of this instruction.
pub fn pc(evm: &mut EVM) -> (r: Result<NextAction, EvmError>)
    requires
        old(evm).pc >= 1,
    ensures
        result_is(final(evm)@, r, pushed(old(evm)@, word_of((old(evm).pc - 1) as nat))),
{
    let w = Word::from_u64((evm.pc - 1) as u64);
    push_word(evm, w)
}

/// JUMPDEST: marks a jump target and does nothing.
pub fn jumpdest(evm: &mut EVM) -> (r: Result<NextAction, EvmError>)
    ensures
        result_is(final(evm)@, r, StepOutcome::Next(old(evm)@)),
{
    Ok(NextAction::Continue)
}

/// PUSHn: pushes the `n` bytes after the opcode, read big-endian, and moves
/// the program counter past them.
pub fn push_n(evm: &mut EVM, code: &Vec<u8>, n: u8) -> (r: Result<NextAction, EvmError>)
    requires
        1 <= n <= 32,
        old(evm).pc <= code@.len(),
    ensures
        result_is(final(evm)@, r, push_spec(code@, old(evm)@, n as nat)),
{
    let start = evm.pc;
    if n as usize > code.len() - start {
        return Err(EvmError::MissingPushData);
    }
    if evm.stack.len() >= STACK_LIMIT {
        return Err(EvmError::StackOverflow);
    }
    let bytes = slice_subrange(code.as_slice(), start, start + n as usize);
    let w = word_from_be(bytes);
    evm.stack.push(w);
    evm.pc = start + n as usize;
    Ok(NextAction::Continue)
}

/// DUPn: pushes a copy of the `n`-th word from the top (1 is the top).
pub fn dup_n(evm: &mut EVM, n: u8) -> (r: Result<NextAction, EvmError>)
    requires
        1 <= n <= 16,
    ensures
        result_is(final(evm)@, r, dup_spec(old(evm)@, n as nat)),
{
    let len = evm.stack.len();
    if len < n as usize {
        return Err(EvmError::StackUnderflow);
    }
    let w = evm.stack[len - n as usize];
    push_word(evm, w)
}

/// SWAPn: exchanges the top word with the one `n` places below it.
pub fn swap_n(evm: &mut EVM, n: u8) -> (r: Result<NextAction, EvmError>)
    requires
        1 <= n <= 16,
    ensures
        result_is(final(evm)@, r, swap_spec(old(evm)@, n as nat)),
{
    let len = evm.stack.len();
    if len < n as usize + 1 {
        return Err(EvmError::StackUnderflow);
    }
    let top = len - 1;
    let other = top - n as usize;
    let x = evm.stack[top];
    let y = evm.stack[other];
    evm.stack.set(top, y);
    evm.stack.set(other, x);
    Ok(NextAction::Continue)
}

} // verus!
