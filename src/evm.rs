//! The execution engine: machine state, one step, and a whole run.
use crate::arithmetic;
use crate::arithmetic::{add_mod, div, exp, modulo, mul_mod, s_div, s_modulo};
use crate::jumpdest::{find_jumpdest, get_jumpdests, jumpdests_spec, strictly_sorted};
use crate::logic::{and, eq, gt, is_zero, lt, not, or, sgt, slt, xor};
use crate::memory::{mload, mstore, mstore8};
use crate::misc::{byte, gas, invalid, sar, shl, shr};
use crate::semantics::{
    lemma_step_past_end, op_spec, run_spec, step_spec, EvmError, MState, NextAction, RunOutcome,
    StepOutcome, MEMORY_LIMIT,
    STACK_LIMIT, STEP_LIMIT,
};
use crate::stack::{dup_n, jump, jumpdest, jumpi, pc, pop, push_n, swap_n};
use crate::table::{get_opcodes, table_complete, Opcode};
use crate::word::Word;
use vstd::prelude::*;

verus! {

/// The bytecode of one run.
pub struct ExecutionData {
    pub bytecode: Vec<u8>,
}

/// What a run leaves: the stack, top first, and whether it ended well.
pub struct EvmResult {
    pub stack: Vec<Word>,
    pub success: bool,
}

/// The machine: stack, memory, program counter and the valid jump targets.
pub struct EVM {
    pub jumpdests: Vec<usize>,
    pub memory: Vec<u8>,
    pub msize: usize,
    pub pc: usize,
    pub stack: Vec<Word>,
}

impl View for EVM {
    type V = MState;

    open spec fn view(&self) -> MState {
        MState {
            pc: self.pc as nat,
            stack: self.stack@,
            memory: self.memory@,
            msize: self.msize as nat,
            jumpdests: self.jumpdests@,
        }
    }
}

/// The state a run starts from.
pub open spec fn initial_state(code: Seq<u8>) -> MState {
    MState {
        pc: 0,
        stack: Seq::empty(),
        memory: Seq::empty(),
        msize: 0,
        jumpdests: jumpdests_spec(code),
    }
}

/// An instruction's result and the state it left agree with the semantics.
pub open spec fn result_is(new: MState, r: Result<NextAction, EvmError>, o: StepOutcome) -> bool {
    match o {
        StepOutcome::Next(s) => r == Ok::<NextAction, EvmError>(NextAction::Continue) && new == s,
        StepOutcome::Halt(s, c) => r == Ok::<NextAction, EvmError>(NextAction::Exit(c)) && new == s,
        StepOutcome::Fail(e) => r == Err::<NextAction, EvmError>(e),
    }
}

/// What `execute` returns for a run outcome.
pub open spec fn run_result_is(r: Result<EvmResult, EvmError>, o: RunOutcome) -> bool {
    match o {
        RunOutcome::Finished(st, ok) => r is Ok && r->Ok_0.stack@ == st.reverse()
            && r->Ok_0.success == ok,
        RunOutcome::Failed(e) => r == Err::<EvmResult, EvmError>(e),
        RunOutcome::OutOfSteps => r == Err::<EvmResult, EvmError>(EvmError::StepLimit),
    }
}

/// The operand of a PUSH, DUP or SWAP is in its family's range.
pub open spec fn op_ok(op: Opcode) -> bool {
    match op {
        Opcode::Push(n) => 1 <= n <= 32,
        Opcode::Dup(n) => 1 <= n <= 16,
        Opcode::Swap(n) => 1 <= n <= 16,
        _ => true,
    }
}

impl EVM {
    pub open spec fn wf(&self) -> bool {
        &&& self.stack@.len() <= STACK_LIMIT
        &&& self.memory@.len() <= MEMORY_LIMIT
        &&& self.msize == self.memory@.len()
        &&& strictly_sorted(self.jumpdests@)
    }

    pub fn new() -> (r: EVM)
        ensures
            r.wf(),
            r.pc == 0,
            r.stack@.len() == 0,
            r.memory@.len() == 0,
            r.jumpdests@.len() == 0,
    {
        EVM { stack: Vec::new(), memory: Vec::new(), pc: 0, msize: 0, jumpdests: Vec::new() }
    }

    /// Fetches, decodes and executes the instruction at `pc`.
    pub fn step(&mut self, code: &Vec<u8>, table: &Vec<Option<Opcode>>) -> (r: Result<
        NextAction,
        EvmError,
    >)
        requires
            old(self).wf(),
            old(self).pc < code@.len(),
            table_complete(table@),
        ensures
            result_is(final(self)@, r, step_spec(code@, old(self)@)),
            r is Ok ==> final(self).wf(),
    {
        proof {
            reveal(step_spec);
        }
        let len = code.len();
        let byte_val = code[self.pc];
        self.pc = self.pc + 1;
        match table[byte_val as usize] {
            None => Err(EvmError::UnknownOpcode(byte_val)),
            Some(op) => self.dispatch(code, op),
        }
    }

    /// Executes one decoded instruction.
    #[verifier::rlimit(50)]
    fn dispatch(&mut self, code: &Vec<u8>, op: Opcode) -> (r: Result<NextAction, EvmError>)
        requires
            old(self).wf(),
            1 <= old(self).pc <= code@.len(),
            op_ok(op),
        ensures
            result_is(final(self)@, r, op_spec(code@, old(self)@, op)),
            r is Ok ==> final(self).wf(),
    {
        proof {
            reveal(op_spec);
        }
        match op {
            Opcode::Stop => Ok(NextAction::Exit(0)),
            Opcode::Add => arithmetic::add(self),
            Opcode::Mul => arithmetic::mul(self),
            Opcode::Sub => arithmetic::sub(self),
            Opcode::Div => div(self),
            Opcode::SDiv => s_div(self),
            Opcode::Mod => modulo(self),
            Opcode::SMod => s_modulo(self),
            Opcode::AddMod => add_mod(self),
            Opcode::MulMod => mul_mod(self),
            Opcode::Exp => exp(self),
            Opcode::Lt => lt(self),
            Opcode::Gt => gt(self),
            Opcode::Slt => slt(self),
            Opcode::Sgt => sgt(self),
            Opcode::Eq => eq(self),
            Opcode::IsZero => is_zero(self),
            Opcode::And => and(self),
            Opcode::Or => or(self),
            Opcode::Xor => xor(self),
            Opcode::Not => not(self),
            Opcode::Byte => byte(self),
            Opcode::Shl => shl(self),
            Opcode::Shr => shr(self),
            Opcode::Sar => sar(self),
            Opcode::Pop => pop(self),
            Opcode::MLoad => mload(self),
            Opcode::MStore => mstore(self),
            Opcode::MStore8 => mstore8(self),
            Opcode::Jump => jump(self),
            Opcode::JumpI => jumpi(self),
            Opcode::Pc => pc(self),
            Opcode::Gas => gas(self),
            Opcode::JumpDest => jumpdest(self),
            Opcode::Push(n) => push_n(self, code, n),
            Opcode::Dup(n) => dup_n(self, n),
            Opcode::Swap(n) => swap_n(self, n),
            Opcode::Invalid => invalid(self),
        }
    }

    /// Runs a bytecode from a fresh state until it stops, fails, or has
    /// taken `STEP_LIMIT` steps; then clears the state (program counter,
    /// stack, memory) for the next run.
    pub fn execute(&mut self, data: &ExecutionData) -> (r: Result<EvmResult, EvmError>)
        ensures
            run_result_is(
                r,
                run_spec(data.bytecode@, initial_state(data.bytecode@), STEP_LIMIT as nat),
            ),
            final(self).pc == 0,
            final(self).stack@.len() == 0,
            final(self).wf(),
    {
        let code = &data.bytecode;
        let table = get_opcodes();
        self.jumpdests = get_jumpdests(code);
        self.memory = Vec::new();
        self.msize = 0;
        self.pc = 0;
        self.stack = Vec::new();
        let ghost s0 = self@;
        let ghost limit = STEP_LIMIT as nat;
        let mut steps: u64 = 0;
        let mut done: Option<Result<bool, EvmError>> = None;
        while steps < STEP_LIMIT && done.is_none()
            invariant
                done is None ==> self.wf(),
                table_complete(table@),
                steps <= STEP_LIMIT,
                limit == STEP_LIMIT as nat,
                done is None ==> run_spec(code@, s0, limit) == run_spec(
                    code@,
                    self@,
                    (limit - steps) as nat,
                ),
                done matches Some(Ok(ok)) ==> run_spec(code@, s0, limit) == RunOutcome::Finished(
                    self.stack@,
                    ok,
                ),
                done matches Some(Err(e)) ==> run_spec(code@, s0, limit) == RunOutcome::Failed(e),
            decreases STEP_LIMIT - steps + (if done is None { 1int } else { 0int }),
        {
            if self.pc >= code.len() {
                proof {
                    lemma_step_past_end(code@, self@);
                    assert(run_spec(code@, self@, (limit - steps) as nat) == RunOutcome::Finished(
                        self.stack@,
                        true,
                    ));
                }
                done = Some(Ok(true));
            } else {
                let ghost before = self@;
                let ghost fuel = (limit - steps) as nat;
                let r = self.step(code, &table);
                assert(run_spec(code@, before, fuel) == match step_spec(code@, before) {
                    StepOutcome::Next(t) => run_spec(code@, t, (fuel - 1) as nat),
                    StepOutcome::Halt(t, c) => RunOutcome::Finished(t.stack, c == 0),
                    StepOutcome::Fail(e) => RunOutcome::Failed(e),
                });
                match r {
                    Ok(NextAction::Continue) => {
                        steps = steps + 1;
                        assert((limit - steps) as nat == (fuel - 1) as nat);
                    },
                    Ok(NextAction::Exit(c)) => {
                        done = Some(Ok(c == 0));
                    },
                    Err(e) => {
                        done = Some(Err(e));
                    },
                }
            }
        }
        let r = match done {
            Some(Ok(ok)) => Ok(self.get_result(ok)),
            Some(Err(e)) => Err(e),
            None => Err(EvmError::StepLimit),
        };
        self.reset();
        r
    }

    /// Clears the state a run leaves behind.
    fn reset(&mut self)
        ensures
            final(self).pc == 0,
            final(self).stack@.len() == 0,
            final(self).wf(),
    {
        self.pc = 0;
        self.stack.clear();
        self.memory.clear();
        self.msize = 0;
        self.jumpdests.clear();
    }

    /// The stack, top first, with the given success flag.
    fn get_result(&self, success: bool) -> (r: EvmResult)
        ensures
            r.stack@ == self.stack@.reverse(),
            r.success == success,
    {
        let n = self.stack.len();
        let mut out: Vec<Word> = Vec::new();
        let mut i: usize = 0;
        while i < n
            invariant
                n == self.stack@.len(),
                i <= n,
                out@.len() == i,
                forall|j: int| 0 <= j < i ==> #[trigger] out@[j] == self.stack@[n - 1 - j],
            decreases n - i,
        {
            out.push(self.stack[n - 1 - i]);
            i = i + 1;
        }
        assert(out@ =~= self.stack@.reverse());
        EvmResult { stack: out, success }
    }
}

/// Whether the program counter stands on a valid jump target.
pub fn is_pc_on_jumpdest(evm: &EVM) -> (r: bool)
    requires
        evm.wf(),
    ensures
        r == evm.jumpdests@.contains(evm.pc),
{
    let found = find_jumpdest(&evm.jumpdests, evm.pc as u64);
    proof {
        if found is Some {
            let k = choose|k: int|
                0 <= k < evm.jumpdests@.len() && #[trigger] evm.jumpdests@[k] as nat
                    == evm.pc as nat;
            assert(evm.jumpdests@[k] == evm.pc);
        } else {
            if evm.jumpdests@.contains(evm.pc) {
                let k = choose|k: int| 0 <= k < evm.jumpdests@.len() && evm.jumpdests@[k] == evm.pc;
                assert(evm.jumpdests@[k] as nat == evm.pc as nat);
            }
        }
    }
    found.is_some()
}

} // verus!
