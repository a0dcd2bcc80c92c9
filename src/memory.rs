//! Memory instructions. Memory grows in 32-byte steps, with zero bytes, to
//! cover every byte touched.
use crate::evm::{result_is, EVM};
use crate::ops::{word_from_be, word_to_be};
use crate::semantics::{
    ceil32, mload_spec, mstore8_spec, mstore_spec, touch, EvmError, NextAction,
    MEMORY_LIMIT,
};
use crate::stack::{pop_one, pop_two};
use crate::word::Word;
use vstd::prelude::*;
use vstd::slice::slice_subrange;

verus! {

/// Grows memory so that it covers `[off, off + n)`.
fn touch_memory(evm: &mut EVM, off: usize, n: usize)
    requires
        old(evm).wf(),
        off + n <= MEMORY_LIMIT,
    ensures
        final(evm)@ == touch(old(evm)@, off as nat, n as nat),
        final(evm).wf(),
{
    let end: usize = (off + n + 31) / 32 * 32;
    assert(end <= MEMORY_LIMIT) by (nonlinear_arith)
        requires
            end == (off + n + 31) / 32 * 32,
            off + n <= 0x100_0000,
    ;
    assert(end == ceil32((off + n) as nat));
    let ghost start = evm.memory@;
    while evm.memory.len() < end
        invariant
            start.len() >= end ==> evm.memory@ == start,
            start.len() < end ==> evm.memory@.len() <= end,
            start.len() <= evm.memory@.len(),
            evm.memory@.subrange(0, start.len() as int) == start,
            forall|i: int|
                start.len() <= i < evm.memory@.len() ==> #[trigger] evm.memory@[i] == 0u8,
            evm.jumpdests == old(evm).jumpdests,
            evm.stack == old(evm).stack,
            evm.pc == old(evm).pc,
            start == old(evm).memory@,
            old(evm).wf(),
        decreases end - evm.memory@.len(),
    {
        evm.memory.push(0u8);
    }
    proof {
        if start.len() < end {
            assert(evm.memory@ =~= start + Seq::new((end - start.len()) as nat, |i: int| 0u8));
        }
    }
    evm.msize = evm.memory.len();
}

/// Reads the `off` word as a memory offset with `n` bytes after it, within
/// the memory limit.
fn offset_within(off: Word, n: usize) -> (r: Option<usize>)
    requires
        n <= 32,
    ensures
        r is Some <==> off.value() + n <= MEMORY_LIMIT,
        r is Some ==> r.unwrap() as nat == off.value(),
{
    match off.to_u64() {
        Some(o) => if o <= (MEMORY_LIMIT - n) as u64 {
            Some(o as usize)
        } else {
            None
        },
        None => None,
    }
}

/// MLOAD: pushes the 32 bytes at the offset on top, read big-endian.
pub fn mload(evm: &mut EVM) -> (r: Result<NextAction, EvmError>)
    requires
        old(evm).wf(),
    ensures
        result_is(final(evm)@, r, mload_spec(old(evm)@)),
        r is Ok ==> final(evm).wf(),
{
    if evm.stack.len() < 1 {
        return Err(EvmError::StackUnderflow);
    }
    let off = evm.stack[evm.stack.len() - 1];
    match offset_within(off, 32) {
        None => Err(EvmError::MemoryLimit),
        Some(o) => {
            pop_one(evm);
            touch_memory(evm, o, 32);
            let w = word_from_be(slice_subrange(evm.memory.as_slice(), o, o + 32));
            evm.stack.push(w);
            Ok(NextAction::Continue)
        },
    }
}

/// MSTORE: writes the second word big-endian at the offset on top.
pub fn mstore(evm: &mut EVM) -> (r: Result<NextAction, EvmError>)
    requires
        old(evm).wf(),
    ensures
        result_is(final(evm)@, r, mstore_spec(old(evm)@)),
        r is Ok ==> final(evm).wf(),
{
    if evm.stack.len() < 2 {
        return Err(EvmError::StackUnderflow);
    }
    let off = evm.stack[evm.stack.len() - 1];
    match offset_within(off, 32) {
        None => Err(EvmError::MemoryLimit),
        Some(o) => {
            let (_, v) = pop_two(evm);
            touch_memory(evm, o, 32);
            let ghost t = evm.memory@;
            let ghost e1 = evm@;
            let bytes = word_to_be(v);
            let mut i: usize = 0;
            while i < 32
                invariant
                    i <= 32,
                    o + 32 <= t.len(),
                    o + 32 <= MEMORY_LIMIT,
                    t == e1.memory,
                    evm.stack@ == e1.stack,
                    evm.pc as nat == e1.pc,
                    evm.msize as nat == e1.msize,
                    evm.jumpdests@ == e1.jumpdests,
                    bytes@.len() == 32,
                    evm.memory@.len() == t.len(),
                    forall|j: int|
                        0 <= j < t.len() ==> #[trigger] evm.memory@[j] == if o <= j < o + i {
                            bytes@[j - o]
                        } else {
                            t[j]
                        },
                decreases 32 - i,
            {
                evm.memory.set(o + i, bytes[i]);
                i = i + 1;
            }
            assert(evm.memory@ =~= t.take(o as int) + bytes@ + t.skip(o + 32int));
            Ok(NextAction::Continue)
        },
    }
}

/// MSTORE8: writes the low byte of the second word at the offset on top.
pub fn mstore8(evm: &mut EVM) -> (r: Result<NextAction, EvmError>)
    requires
        old(evm).wf(),
    ensures
        result_is(final(evm)@, r, mstore8_spec(old(evm)@)),
        r is Ok ==> final(evm).wf(),
{
    if evm.stack.len() < 2 {
        return Err(EvmError::StackUnderflow);
    }
    let off = evm.stack[evm.stack.len() - 1];
    match offset_within(off, 1) {
        None => Err(EvmError::MemoryLimit),
        Some(o) => {
            let (_, v) = pop_two(evm);
            touch_memory(evm, o, 1);
            evm.memory.set(o, v.low_byte());
            Ok(NextAction::Continue)
        },
    }
}

} // verus!
