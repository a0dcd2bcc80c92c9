//! The machine's meaning: one step and a bounded run, as spec functions.
use crate::ops::{be_bytes, be_value};
use crate::table::{decode, Opcode};
use crate::word::{
    add_spec, and_spec, bool_word, byte_spec, div_spec, exp_spec, flip_sign_spec,
    is_negative_spec, mod_spec, modulus, mul_spec, not_spec, or_spec, shl_spec,
    shr_spec, signed_value, sub_spec, word_of, xor_spec, Word,
};
use vstd::prelude::*;

verus! {

/// Most words the stack may hold.
pub const STACK_LIMIT: usize = 1024;

/// Most bytes the memory may grow to.
pub const MEMORY_LIMIT: usize = 0x100_0000;

/// Most instructions one run may execute.
pub const STEP_LIMIT: u64 = 0x1_0000_0000;

/// What stops a run before the bytecode itself ends it.
#[derive(Clone, Copy, Debug, PartialEq, Eq, Structural)]
pub enum EvmError {
    StackUnderflow,
    StackOverflow,
    UnknownOpcode(u8),
    MissingPushData,
    InvalidJump,
    MemoryLimit,
    StepLimit,
}

/// What an instruction tells the loop.
#[derive(Clone, Copy, Debug, PartialEq, Eq, Structural)]
pub enum NextAction {
    Continue,
    Exit(u64),
}

/// The machine state seen by the semantics.
pub struct MState {
    pub pc: nat,
    pub stack: Seq<Word>,
    pub memory: Seq<u8>,
    pub msize: nat,
    pub jumpdests: Seq<usize>,
}

pub enum StepOutcome {
    Next(MState),
    Halt(MState, u64),
    Fail(EvmError),
}

pub enum RunOutcome {
    Finished(Seq<Word>, bool),
    Failed(EvmError),
    OutOfSteps,
}

/// The `i`-th word from the top (0 is the top).
pub open spec fn nth(s: MState, i: int) -> Word {
    s.stack[s.stack.len() - 1 - i]
}

pub open spec fn with_stack(s: MState, st: Seq<Word>) -> MState {
    MState { stack: st, ..s }
}

/// Replace the top two words by `r`.
pub open spec fn binary(s: MState, r: Word) -> StepOutcome {
    if s.stack.len() < 2 {
        StepOutcome::Fail(EvmError::StackUnderflow)
    } else {
        StepOutcome::Next(with_stack(s, s.stack.drop_last().drop_last().push(r)))
    }
}

/// Replace the top word by `r`.
pub open spec fn unary(s: MState, r: Word) -> StepOutcome {
    if s.stack.len() < 1 {
        StepOutcome::Fail(EvmError::StackUnderflow)
    } else {
        StepOutcome::Next(with_stack(s, s.stack.drop_last().push(r)))
    }
}

/// Push `r` onto the stack.
pub open spec fn pushed(s: MState, r: Word) -> StepOutcome {
    if s.stack.len() >= STACK_LIMIT {
        StepOutcome::Fail(EvmError::StackOverflow)
    } else {
        StepOutcome::Next(with_stack(s, s.stack.push(r)))
    }
}

pub open spec fn slt_spec(a: Word, b: Word) -> bool {
    signed_value(a) < signed_value(b)
}

pub open spec fn lt_word(a: Word, b: Word) -> Word {
    bool_word(a.value() < b.value())
}

pub open spec fn gt_word(a: Word, b: Word) -> Word {
    bool_word(a.value() > b.value())
}

pub open spec fn slt_word(a: Word, b: Word) -> Word {
    bool_word(slt_spec(a, b))
}

pub open spec fn sgt_word(a: Word, b: Word) -> Word {
    bool_word(slt_spec(b, a))
}

pub open spec fn eq_word(a: Word, b: Word) -> Word {
    bool_word(a == b)
}

pub open spec fn is_zero_word(a: Word) -> Word {
    bool_word(a.value() == 0)
}

pub open spec fn shift_left(shift: Word, v: Word) -> Word {
    if shift.value() >= 256 {
        word_of(0)
    } else {
        shl_spec(v, shift.value())
    }
}

pub open spec fn shift_right(shift: Word, v: Word) -> Word {
    if shift.value() >= 256 {
        word_of(0)
    } else {
        shr_spec(v, shift.value())
    }
}

/// Arithmetic shift right: a negative word is complemented, shifted and
/// complemented back, so that ones come in from the top.
pub open spec fn sar_spec(shift: Word, v: Word) -> Word {
    if is_negative_spec(v) {
        not_spec(shift_right(shift, not_spec(v)))
    } else {
        shift_right(shift, v)
    }
}

pub open spec fn byte_op_spec(i: Word, v: Word) -> Word {
    if i.value() >= 32 {
        word_of(0)
    } else {
        word_of(byte_spec(v, i.value()))
    }
}

/// Signed division, truncating toward zero.
pub open spec fn sdiv_spec(a: Word, b: Word) -> Word {
    let ma = if is_negative_spec(a) { flip_sign_spec(a) } else { a };
    let mb = if is_negative_spec(b) { flip_sign_spec(b) } else { b };
    let q = div_spec(ma, mb);
    if is_negative_spec(a) != is_negative_spec(b) {
        flip_sign_spec(q)
    } else {
        q
    }
}

/// Signed remainder, with the sign of the dividend.
pub open spec fn smod_spec(a: Word, b: Word) -> Word {
    let ma = if is_negative_spec(a) { flip_sign_spec(a) } else { a };
    let mb = if is_negative_spec(b) { flip_sign_spec(b) } else { b };
    let m = mod_spec(ma, mb);
    if is_negative_spec(a) {
        flip_sign_spec(m)
    } else {
        m
    }
}

/// Sum modulo `n`, computed without wrapping at 2^256; zero for `n == 0`.
pub open spec fn addmod_spec(a: Word, b: Word, n: Word) -> Word {
    if n.value() == 0 {
        word_of(0)
    } else {
        word_of((a.value() + b.value()) % n.value())
    }
}

/// Product modulo `n`, computed without wrapping at 2^256; zero for `n == 0`.
pub open spec fn mulmod_spec(a: Word, b: Word, n: Word) -> Word {
    if n.value() == 0 {
        word_of(0)
    } else {
        word_of((a.value() * b.value()) % n.value())
    }
}

/// Replace the top three words by `r`.
pub open spec fn ternary(s: MState, r: Word) -> StepOutcome {
    if s.stack.len() < 3 {
        StepOutcome::Fail(EvmError::StackUnderflow)
    } else {
        StepOutcome::Next(with_stack(s, s.stack.drop_last().drop_last().drop_last().push(r)))
    }
}

pub open spec fn ceil32(n: nat) -> nat {
    ((n + 31) / 32) * 32
}

/// Memory grown with zero bytes to at least `end` bytes.
pub open spec fn grown(m: Seq<u8>, end: nat) -> Seq<u8> {
    if m.len() >= end {
        m
    } else {
        m + Seq::new((end - m.len()) as nat, |i: int| 0u8)
    }
}

/// The state with memory covering `[off, off + n)`.
pub open spec fn touch(s: MState, off: nat, n: nat) -> MState {
    let m = grown(s.memory, ceil32(off + n));
    MState { memory: m, msize: m.len(), ..s }
}

pub open spec fn mload_spec(s: MState) -> StepOutcome {
    if s.stack.len() < 1 {
        StepOutcome::Fail(EvmError::StackUnderflow)
    } else if nth(s, 0).value() + 32 > MEMORY_LIMIT {
        StepOutcome::Fail(EvmError::MemoryLimit)
    } else {
        let off = nth(s, 0).value();
        let t = touch(s, off, 32);
        let w = word_of(be_value(t.memory.subrange(off as int, off + 32int)));
        StepOutcome::Next(with_stack(t, s.stack.drop_last().push(w)))
    }
}

pub open spec fn mstore_spec(s: MState) -> StepOutcome {
    if s.stack.len() < 2 {
        StepOutcome::Fail(EvmError::StackUnderflow)
    } else if nth(s, 0).value() + 32 > MEMORY_LIMIT {
        StepOutcome::Fail(EvmError::MemoryLimit)
    } else {
        let off = nth(s, 0).value();
        let t = touch(s, off, 32);
        let m = t.memory.take(off as int) + be_bytes(nth(s, 1)) + t.memory.skip(off + 32int);
        StepOutcome::Next(MState { memory: m, stack: s.stack.drop_last().drop_last(), ..t })
    }
}

pub open spec fn mstore8_spec(s: MState) -> StepOutcome {
    if s.stack.len() < 2 {
        StepOutcome::Fail(EvmError::StackUnderflow)
    } else if nth(s, 0).value() + 1 > MEMORY_LIMIT {
        StepOutcome::Fail(EvmError::MemoryLimit)
    } else {
        let off = nth(s, 0).value();
        let t = touch(s, off, 1);
        let m = t.memory.update(off as int, (nth(s, 1).value() % 256) as u8);
        StepOutcome::Next(MState { memory: m, stack: s.stack.drop_last().drop_last(), ..t })
    }
}

/// A word names a valid jump target.
pub open spec fn valid_target(s: MState, t: Word) -> bool {
    exists|k: int| 0 <= k < s.jumpdests.len() && #[trigger] s.jumpdests[k] as nat == t.value()
}

pub open spec fn jump_spec(s: MState) -> StepOutcome {
    if s.stack.len() < 1 {
        StepOutcome::Fail(EvmError::StackUnderflow)
    } else if !valid_target(s, nth(s, 0)) {
        StepOutcome::Fail(EvmError::InvalidJump)
    } else {
        StepOutcome::Next(MState { pc: nth(s, 0).value(), stack: s.stack.drop_last(), ..s })
    }
}

pub open spec fn jumpi_spec(s: MState) -> StepOutcome {
    if s.stack.len() < 2 {
        StepOutcome::Fail(EvmError::StackUnderflow)
    } else if nth(s, 1).value() == 0 {
        StepOutcome::Next(with_stack(s, s.stack.drop_last().drop_last()))
    } else if !valid_target(s, nth(s, 0)) {
        StepOutcome::Fail(EvmError::InvalidJump)
    } else {
        StepOutcome::Next(
            MState { pc: nth(s, 0).value(), stack: s.stack.drop_last().drop_last(), ..s },
        )
    }
}

pub open spec fn push_spec(code: Seq<u8>, s: MState, n: nat) -> StepOutcome {
    if s.pc + n > code.len() {
        StepOutcome::Fail(EvmError::MissingPushData)
    } else if s.stack.len() >= STACK_LIMIT {
        StepOutcome::Fail(EvmError::StackOverflow)
    } else {
        let w = word_of(be_value(code.subrange(s.pc as int, s.pc + n as int)));
        StepOutcome::Next(MState { pc: s.pc + n, stack: s.stack.push(w), ..s })
    }
}

pub open spec fn dup_spec(s: MState, n: nat) -> StepOutcome {
    if s.stack.len() < n {
        StepOutcome::Fail(EvmError::StackUnderflow)
    } else {
        pushed(s, nth(s, n - 1))
    }
}

pub open spec fn swap_spec(s: MState, n: nat) -> StepOutcome {
    if s.stack.len() < n + 1 {
        StepOutcome::Fail(EvmError::StackUnderflow)
    } else {
        let top = s.stack.len() - 1;
        let st = s.stack.update(top, s.stack[top - n]).update(top - n, s.stack[top]);
        StepOutcome::Next(with_stack(s, st))
    }
}

/// What one instruction does, the program counter already past its opcode byte.
#[verifier::opaque]
pub open spec fn op_spec(code: Seq<u8>, s: MState, op: Opcode) -> StepOutcome {
    let a = nth(s, 0);
    let b = nth(s, 1);
    match op {
        Opcode::Stop => StepOutcome::Halt(s, 0),
        Opcode::Add => binary(s, add_spec(a, b)),
        Opcode::Mul => binary(s, mul_spec(a, b)),
        Opcode::Sub => binary(s, sub_spec(a, b)),
        Opcode::Div => binary(s, div_spec(a, b)),
        Opcode::SDiv => binary(s, sdiv_spec(a, b)),
        Opcode::Mod => binary(s, mod_spec(a, b)),
        Opcode::SMod => binary(s, smod_spec(a, b)),
        Opcode::AddMod => ternary(s, addmod_spec(a, b, nth(s, 2))),
        Opcode::MulMod => ternary(s, mulmod_spec(a, b, nth(s, 2))),
        Opcode::Exp => binary(s, exp_spec(a, b)),
        Opcode::Lt => binary(s, lt_word(a, b)),
        Opcode::Gt => binary(s, gt_word(a, b)),
        Opcode::Slt => binary(s, slt_word(a, b)),
        Opcode::Sgt => binary(s, sgt_word(a, b)),
        Opcode::Eq => binary(s, eq_word(a, b)),
        Opcode::IsZero => unary(s, is_zero_word(a)),
        Opcode::And => binary(s, and_spec(a, b)),
        Opcode::Or => binary(s, or_spec(a, b)),
        Opcode::Xor => binary(s, xor_spec(a, b)),
        Opcode::Not => unary(s, not_spec(a)),
        Opcode::Byte => binary(s, byte_op_spec(a, b)),
        Opcode::Shl => binary(s, shift_left(a, b)),
        Opcode::Shr => binary(s, shift_right(a, b)),
        Opcode::Sar => binary(s, sar_spec(a, b)),
        Opcode::Pop => if s.stack.len() < 1 {
            StepOutcome::Fail(EvmError::StackUnderflow)
        } else {
            StepOutcome::Next(with_stack(s, s.stack.drop_last()))
        },
        Opcode::MLoad => mload_spec(s),
        Opcode::MStore => mstore_spec(s),
        Opcode::MStore8 => mstore8_spec(s),
        Opcode::Jump => jump_spec(s),
        Opcode::JumpI => jumpi_spec(s),
        Opcode::Pc => pushed(s, word_of((s.pc - 1) as nat)),
        Opcode::Gas => pushed(s, word_of((modulus() - 1) as nat)),
        Opcode::JumpDest => StepOutcome::Next(s),
        Opcode::Push(n) => push_spec(code, s, n as nat),
        Opcode::Dup(n) => dup_spec(s, n as nat),
        Opcode::Swap(n) => swap_spec(s, n as nat),
        Opcode::Invalid => StepOutcome::Halt(s, 1),
    }
}

/// One fetch, decode and execute; past the end of the bytecode the run stops.
#[verifier::opaque]
pub open spec fn step_spec(code: Seq<u8>, s: MState) -> StepOutcome {
    if s.pc >= code.len() {
        StepOutcome::Halt(s, 0)
    } else {
        let byte = code[s.pc as int];
        match decode(byte) {
            None => StepOutcome::Fail(EvmError::UnknownOpcode(byte)),
            Some(op) => op_spec(code, MState { pc: s.pc + 1, ..s }, op),
        }
    }
}

/// Past the end of the bytecode a step stops the run with status 0.
pub proof fn lemma_step_past_end(code: Seq<u8>, s: MState)
    requires
        s.pc >= code.len(),
    ensures
        step_spec(code, s) == StepOutcome::Halt(s, 0),
{
    reveal(step_spec);
}

/// At most `fuel` steps from `s`.
pub open spec fn run_spec(code: Seq<u8>, s: MState, fuel: nat) -> RunOutcome
    decreases fuel,
{
    if fuel == 0 {
        RunOutcome::OutOfSteps
    } else {
        match step_spec(code, s) {
            StepOutcome::Next(t) => run_spec(code, t, (fuel - 1) as nat),
            StepOutcome::Halt(t, c) => RunOutcome::Finished(t.stack, c == 0),
            StepOutcome::Fail(e) => RunOutcome::Failed(e),
        }
    }
}

} // verus!
