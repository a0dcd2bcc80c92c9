//! The opcode table: which instruction each byte stands for.
use vstd::prelude::*;

verus! {

/// The instruction that an opcode byte selects. The PUSH, DUP and SWAP
/// families carry their size.
#[derive(Clone, Copy, Debug, PartialEq, Eq, Structural)]
pub enum Opcode {
    Stop,
    Add,
    Mul,
    Sub,
    Div,
    SDiv,
    Mod,
    SMod,
    AddMod,
    MulMod,
    Exp,
    Lt,
    Gt,
    Slt,
    Sgt,
    Eq,
    IsZero,
    And,
    Or,
    Xor,
    Not,
    Byte,
    Shl,
    Shr,
    Sar,
    Pop,
    MLoad,
    MStore,
    MStore8,
    Jump,
    JumpI,
    Pc,
    Gas,
    JumpDest,
    Push(u8),
    Dup(u8),
    Swap(u8),
    Invalid,
}

pub const JUMPDEST: u8 = 0x5b;

pub const PUSH1: u8 = 0x60;

pub const PUSH32: u8 = 0x7f;

pub open spec fn decode_fixed(b: u8) -> Option<Opcode> {
    if b == 0x00 {
        Some(Opcode::Stop)
    } else if b == 0x01 {
        Some(Opcode::Add)
    } else if b == 0x02 {
        Some(Opcode::Mul)
    } else if b == 0x03 {
        Some(Opcode::Sub)
    } else if b == 0x04 {
        Some(Opcode::Div)
    } else if b == 0x05 {
        Some(Opcode::SDiv)
    } else if b == 0x06 {
        Some(Opcode::Mod)
    } else if b == 0x07 {
        Some(Opcode::SMod)
    } else if b == 0x08 {
        Some(Opcode::AddMod)
    } else if b == 0x09 {
        Some(Opcode::MulMod)
    } else if b == 0x0a {
        Some(Opcode::Exp)
    } else if b == 0x10 {
        Some(Opcode::Lt)
    } else if b == 0x11 {
        Some(Opcode::Gt)
    } else if b == 0x12 {
        Some(Opcode::Slt)
    } else if b == 0x13 {
        Some(Opcode::Sgt)
    } else if b == 0x14 {
        Some(Opcode::Eq)
    } else if b == 0x15 {
        Some(Opcode::IsZero)
    } else if b == 0x16 {
        Some(Opcode::And)
    } else if b == 0x17 {
        Some(Opcode::Or)
    } else if b == 0x18 {
        Some(Opcode::Xor)
    } else if b == 0x19 {
        Some(Opcode::Not)
    } else if b == 0x1a {
        Some(Opcode::Byte)
    } else if b == 0x1b {
        Some(Opcode::Shl)
    } else if b == 0x1c {
        Some(Opcode::Shr)
    } else if b == 0x1d {
        Some(Opcode::Sar)
    } else if b == 0x50 {
        Some(Opcode::Pop)
    } else if b == 0x51 {
        Some(Opcode::MLoad)
    } else if b == 0x52 {
        Some(Opcode::MStore)
    } else if b == 0x53 {
        Some(Opcode::MStore8)
    } else if b == 0x56 {
        Some(Opcode::Jump)
    } else if b == 0x57 {
        Some(Opcode::JumpI)
    } else if b == 0x58 {
        Some(Opcode::Pc)
    } else if b == 0x5a {
        Some(Opcode::Gas)
    } else if b == 0x5b {
        Some(Opcode::JumpDest)
    } else if b == 0xfe {
        Some(Opcode::Invalid)
    } else {
        None
    }
}

/// The instruction of each byte; `None` for a byte with no instruction.
pub open spec fn decode(b: u8) -> Option<Opcode> {
    if 0x60 <= b <= 0x7f {
        Some(Opcode::Push((b - 0x5f) as u8))
    } else if 0x80 <= b <= 0x8f {
        Some(Opcode::Dup((b - 0x7f) as u8))
    } else if 0x90 <= b <= 0x9f {
        Some(Opcode::Swap((b - 0x8f) as u8))
    } else {
        decode_fixed(b)
    }
}

/// A table lookup agrees with `decode`.
pub open spec fn table_complete(t: Seq<Option<Opcode>>) -> bool {
    t.len() == 256 && forall|i: int| 0 <= i < 256 ==> #[trigger] t[i] == decode(i as u8)
}

pub fn generate_push_n_fn(n: u8) -> (r: Opcode)
    requires
        1 <= n <= 32,
    ensures
        r == Opcode::Push(n),
{
    Opcode::Push(n)
}

pub fn generate_dup_n_fn(n: u8) -> (r: Opcode)
    requires
        1 <= n <= 16,
    ensures
        r == Opcode::Dup(n),
{
    Opcode::Dup(n)
}

pub fn generate_swap_n_fn(n: u8) -> (r: Opcode)
    requires
        1 <= n <= 16,
    ensures
        r == Opcode::Swap(n),
{
    Opcode::Swap(n)
}

/// Puts PUSH1..PUSH32 at 0x60..0x7f.
pub fn insert_push_n_functions(opcodes: &mut Vec<Option<Opcode>>)
    requires
        old(opcodes)@.len() == 256,
    ensures
        final(opcodes)@.len() == 256,
        forall|i: int|
            0 <= i < 256 ==> #[trigger] final(opcodes)@[i] == if 0x60 <= i <= 0x7f {
                Some(Opcode::Push((i - 0x5f) as u8))
            } else {
                old(opcodes)@[i]
            },
{
    let mut n: u8 = 1;
    while n <= 32
        invariant
            1 <= n <= 33,
            opcodes@.len() == 256,
            forall|i: int|
                0 <= i < 256 ==> #[trigger] opcodes@[i] == if 0x60 <= i < 0x5f + n {
                    Some(Opcode::Push((i - 0x5f) as u8))
                } else {
                    old(opcodes)@[i]
                },
        decreases 33 - n,
    {
        opcodes.set((0x5f + n) as usize, Some(generate_push_n_fn(n)));
        n = n + 1;
    }
}

/// Puts DUP1..DUP16 at 0x80..0x8f.
pub fn insert_dup_n_functions(opcodes: &mut Vec<Option<Opcode>>)
    requires
        old(opcodes)@.len() == 256,
    ensures
        final(opcodes)@.len() == 256,
        forall|i: int|
            0 <= i < 256 ==> #[trigger] final(opcodes)@[i] == if 0x80 <= i <= 0x8f {
                Some(Opcode::Dup((i - 0x7f) as u8))
            } else {
                old(opcodes)@[i]
            },
{
    let mut n: u8 = 1;
    while n <= 16
        invariant
            1 <= n <= 17,
            opcodes@.len() == 256,
            forall|i: int|
                0 <= i < 256 ==> #[trigger] opcodes@[i] == if 0x80 <= i < 0x7f + n {
                    Some(Opcode::Dup((i - 0x7f) as u8))
                } else {
                    old(opcodes)@[i]
                },
        decreases 17 - n,
    {
        opcodes.set((0x7f + n) as usize, Some(generate_dup_n_fn(n)));
        n = n + 1;
    }
}

/// Puts SWAP1..SWAP16 at 0x90..0x9f.
pub fn insert_swap_n_functions(opcodes: &mut Vec<Option<Opcode>>)
    requires
        old(opcodes)@.len() == 256,
    ensures
        final(opcodes)@.len() == 256,
        forall|i: int|
            0 <= i < 256 ==> #[trigger] final(opcodes)@[i] == if 0x90 <= i <= 0x9f {
                Some(Opcode::Swap((i - 0x8f) as u8))
            } else {
                old(opcodes)@[i]
            },
{
    let mut n: u8 = 1;
    while n <= 16
        invariant
            1 <= n <= 17,
            opcodes@.len() == 256,
            forall|i: int|
                0 <= i < 256 ==> #[trigger] opcodes@[i] == if 0x90 <= i < 0x8f + n {
                    Some(Opcode::Swap((i - 0x8f) as u8))
                } else {
                    old(opcodes)@[i]
                },
        decreases 17 - n,
    {
        opcodes.set((0x8f + n) as usize, Some(generate_swap_n_fn(n)));
        n = n + 1;
    }
}

/// The table of all 256 opcode bytes.
pub fn get_opcodes() -> (r: Vec<Option<Opcode>>)
    ensures
        table_complete(r@),
{
    let mut t: Vec<Option<Opcode>> = Vec::new();
    let mut i: usize = 0;
    while i < 256
        invariant
            i <= 256,
            t@.len() == i,
            forall|j: int| 0 <= j < i ==> #[trigger] t@[j] == decode_fixed(j as u8),
        decreases 256 - i,
    {
        t.push(fixed_opcode(i as u8));
        i = i + 1;
    }
    insert_push_n_functions(&mut t);
    insert_dup_n_functions(&mut t);
    insert_swap_n_functions(&mut t);
    t
}

/// The instruction of a byte outside the PUSH, DUP and SWAP families.
fn fixed_opcode(b: u8) -> (r: Option<Opcode>)
    ensures
        r == decode_fixed(b),
{
    match b {
        0x00 => Some(Opcode::Stop),
        0x01 => Some(Opcode::Add),
        0x02 => Some(Opcode::Mul),
        0x03 => Some(Opcode::Sub),
        0x04 => Some(Opcode::Div),
        0x05 => Some(Opcode::SDiv),
        0x06 => Some(Opcode::Mod),
        0x07 => Some(Opcode::SMod),
        0x08 => Some(Opcode::AddMod),
        0x09 => Some(Opcode::MulMod),
        0x0a => Some(Opcode::Exp),
        0x10 => Some(Opcode::Lt),
        0x11 => Some(Opcode::Gt),
        0x12 => Some(Opcode::Slt),
        0x13 => Some(Opcode::Sgt),
        0x14 => Some(Opcode::Eq),
        0x15 => Some(Opcode::IsZero),
        0x16 => Some(Opcode::And),
        0x17 => Some(Opcode::Or),
        0x18 => Some(Opcode::Xor),
        0x19 => Some(Opcode::Not),
        0x1a => Some(Opcode::Byte),
        0x1b => Some(Opcode::Shl),
        0x1c => Some(Opcode::Shr),
        0x1d => Some(Opcode::Sar),
        0x50 => Some(Opcode::Pop),
        0x51 => Some(Opcode::MLoad),
        0x52 => Some(Opcode::MStore),
        0x53 => Some(Opcode::MStore8),
        0x56 => Some(Opcode::Jump),
        0x57 => Some(Opcode::JumpI),
        0x58 => Some(Opcode::Pc),
        0x5a => Some(Opcode::Gas),
        0x5b => Some(Opcode::JumpDest),
        0xfe => Some(Opcode::Invalid),
        _ => None,
    }
}

} // verus!
