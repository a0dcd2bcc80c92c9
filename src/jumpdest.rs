//! Finding the valid jump targets of a bytecode.
use crate::table::{JUMPDEST, PUSH1, PUSH32};
use vstd::prelude::*;

verus! {

/// Bytes that a PUSH opcode covers, itself and its immediate data.
pub open spec fn push_skip(op: u8) -> nat {
    (op as int - PUSH1 as int + 2) as nat
}

/// Offsets of the JUMPDEST instructions at or after `pc`, when `pc` starts an
/// instruction. The immediate bytes of a PUSH are skipped unread.
pub open spec fn jumpdests_from(code: Seq<u8>, pc: nat) -> Seq<usize>
    decreases code.len() - pc,
{
    if pc >= code.len() {
        seq![]
    } else if PUSH1 <= code[pc as int] <= PUSH32 {
        if pc + push_skip(code[pc as int]) >= code.len() {
            seq![]
        } else {
            jumpdests_from(code, pc + push_skip(code[pc as int]))
        }
    } else if code[pc as int] == JUMPDEST {
        seq![pc as usize].add(jumpdests_from(code, pc + 1))
    } else {
        jumpdests_from(code, pc + 1)
    }
}

pub open spec fn jumpdests_spec(code: Seq<u8>) -> Seq<usize> {
    jumpdests_from(code, 0)
}

pub open spec fn strictly_sorted(s: Seq<usize>) -> bool {
    forall|i: int, j: int| 0 <= i < j < s.len() ==> s[i] < s[j]
}

/// The offsets found from `pc` on are increasing, at least `pc`, inside the
/// code, and each holds a JUMPDEST byte.
pub proof fn lemma_jumpdests_sorted(code: Seq<u8>, pc: nat)
    requires
        code.len() <= usize::MAX,
    ensures
        strictly_sorted(jumpdests_from(code, pc)),
        forall|i: int|
            0 <= i < jumpdests_from(code, pc).len() ==> pc <= #[trigger] jumpdests_from(
                code,
                pc,
            )[i] < code.len(),
        forall|i: int|
            0 <= i < jumpdests_from(code, pc).len() ==> code[#[trigger] jumpdests_from(
                code,
                pc,
            )[i] as int] == JUMPDEST,
    decreases code.len() - pc,
{
    if pc >= code.len() {
    } else if PUSH1 <= code[pc as int] <= PUSH32 {
        if pc + push_skip(code[pc as int]) < code.len() {
            lemma_jumpdests_sorted(code, pc + push_skip(code[pc as int]));
        }
    } else if code[pc as int] == JUMPDEST {
        lemma_jumpdests_sorted(code, pc + 1);
        let rest = jumpdests_from(code, pc + 1);
        let all = seq![pc as usize].add(rest);
        assert forall|i: int| 0 <= i < all.len() implies pc <= #[trigger] all[i] < code.len()
            && code[all[i] as int] == JUMPDEST by {
            if i > 0 {
                assert(all[i] == rest[i - 1]);
            }
        }
        assert forall|i: int, j: int| 0 <= i < j < all.len() implies all[i] < all[j] by {
            assert(all[j] == rest[j - 1]);
            if i > 0 {
                assert(all[i] == rest[i - 1]);
            }
        }
    } else {
        lemma_jumpdests_sorted(code, pc + 1);
    }
}

/// Scans the bytecode once and returns the offsets of its JUMPDEST
/// instructions, in increasing order.
pub fn get_jumpdests(execution_bytecode: &Vec<u8>) -> (r: Vec<usize>)
    ensures
        r@ == jumpdests_spec(execution_bytecode@),
        strictly_sorted(r@),
        forall|i: int| 0 <= i < r@.len() ==> execution_bytecode@[#[trigger] r@[i] as int] == JUMPDEST,
{
    let code = execution_bytecode;
    let len = code.len();
    let mut pc: usize = 0;
    let mut jumpdests: Vec<usize> = Vec::new();
    while pc < len
        invariant
            len == code@.len(),
            pc <= len,
            jumpdests@ + jumpdests_from(code@, pc as nat) == jumpdests_spec(code@),
        decreases len - pc,
    {
        let opcode = code[pc];
        if PUSH1 <= opcode && opcode <= PUSH32 {
            let skip: usize = (opcode - PUSH1) as usize + 2;
            if skip >= len - pc {
                pc = len;
            } else {
                pc = pc + skip;
            }
        } else if opcode == JUMPDEST {
            let ghost before = jumpdests@;
            jumpdests.push(pc);
            assert(before + jumpdests_from(code@, pc as nat) =~= jumpdests@ + jumpdests_from(
                code@,
                (pc + 1) as nat,
            ));
            pc = pc + 1;
        } else {
            pc = pc + 1;
        }
    }
    assert(jumpdests@ =~= jumpdests@ + jumpdests_from(code@, pc as nat));
    proof {
        lemma_jumpdests_sorted(code@, 0);
    }
    jumpdests
}

/// Where `target` stands in a strictly increasing list of offsets, by binary
/// search.
pub fn find_jumpdest(jumpdests: &Vec<usize>, target: u64) -> (r: Option<usize>)
    requires
        strictly_sorted(jumpdests@),
    ensures
        r.is_some() <==> exists|k: int|
            0 <= k < jumpdests@.len() && #[trigger] jumpdests@[k] as nat == target as nat,
        r.is_some() ==> r.unwrap() as nat == target as nat,
{
    let mut lo: usize = 0;
    let mut hi: usize = jumpdests.len();
    while lo < hi
        invariant
            lo <= hi <= jumpdests@.len(),
            strictly_sorted(jumpdests@),
            forall|k: int| 0 <= k < lo ==> (#[trigger] jumpdests@[k] as nat) < target as nat,
            forall|k: int|
                hi <= k < jumpdests@.len() ==> (#[trigger] jumpdests@[k] as nat) > target as nat,
        decreases hi - lo,
    {
        let mid = lo + (hi - lo) / 2;
        let v = jumpdests[mid];
        if (v as u64) == target {
            return Some(v);
        } else if (v as u64) < target {
            lo = mid + 1;
        } else {
            hi = mid;
        }
    }
    None
}

} // verus!
