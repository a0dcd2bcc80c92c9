use evm::evm::{is_pc_on_jumpdest, EvmResult, ExecutionData, EVM};
use evm::jumpdest::{find_jumpdest, get_jumpdests};
use evm::semantics::{EvmError, NextAction};
use evm::table::{get_opcodes, Opcode};
use evm::word::Word;

fn run(code: Vec<u8>) -> Result<EvmResult, EvmError> {
    let mut machine = EVM::new();
    machine.execute(&ExecutionData { bytecode: code })
}

fn w(x: u64) -> Word {
    Word::from_u64(x)
}

fn top_of(code: Vec<u8>) -> Word {
    let r = run(code).expect("run failed");
    assert!(r.success);
    r.stack[0]
}

#[test]
fn push_add_gives_eight() {
    let r = run(vec![0x60, 0x03, 0x60, 0x05, 0x01]).unwrap();
    assert!(r.success);
    assert_eq!(r.stack, vec![w(8)]);
}

#[test]
fn invalid_fails_with_empty_stack() {
    let r = run(vec![0xfe]).unwrap();
    assert!(!r.success);
    assert!(r.stack.is_empty());
}

#[test]
fn invalid_keeps_prior_stack() {
    let r = run(vec![0x60, 0x07, 0xfe, 0x60, 0x01]).unwrap();
    assert!(!r.success);
    assert_eq!(r.stack, vec![w(7)]);
}

#[test]
fn invalid_handler_exits_with_one() {
    let mut m = EVM::new();
    assert_eq!(evm::misc::invalid(&mut m), Ok(NextAction::Exit(1)));
}

#[test]
fn sub_wraps_around() {
    // pushes 0x20, then 0x00; SUB takes the top (0) minus the second (0x20)
    let r = top_of(vec![0x60, 0x20, 0x60, 0x00, 0x03]);
    let m = u64::MAX;
    assert_eq!(r, Word { l0: m - 31, l1: m, l2: m, l3: m });
}

#[test]
fn push1_ff_is_255() {
    let r = run(vec![0x60, 0xff]).unwrap();
    assert!(r.success);
    assert_eq!(r.stack, vec![w(255)]);
}

#[test]
fn push32_reads_big_endian() {
    let mut code = vec![0x7f];
    for i in 0..32u8 {
        code.push(i);
    }
    let r = top_of(code);
    assert_eq!(r.l3, 0x0001_0203_0405_0607);
    assert_eq!(r.l0, 0x1819_1a1b_1c1d_1e1f);
}

#[test]
fn execute_twice_gives_same_result() {
    let mut m = EVM::new();
    let data = ExecutionData { bytecode: vec![0x60, 0x03, 0x60, 0x05, 0x01, 0x60, 0x02] };
    let a = m.execute(&data).unwrap();
    let b = m.execute(&data).unwrap();
    assert_eq!(a.stack, b.stack);
    assert_eq!(a.success, b.success);
    assert_eq!(a.stack, vec![w(2), w(8)]);
    assert_eq!(m.pc, 0);
    assert!(m.stack.is_empty());
}

#[test]
fn empty_code_succeeds() {
    let r = run(vec![]).unwrap();
    assert!(r.success);
    assert!(r.stack.is_empty());
}

#[test]
fn stop_ends_the_run() {
    let r = run(vec![0x60, 0x01, 0x00, 0x60, 0x02]).unwrap();
    assert!(r.success);
    assert_eq!(r.stack, vec![w(1)]);
}

#[test]
fn result_is_top_first() {
    let r = run(vec![0x60, 0x01, 0x60, 0x02, 0x60, 0x03]).unwrap();
    assert_eq!(r.stack, vec![w(3), w(2), w(1)]);
}

#[test]
fn push_data_jumpdest_bytes_are_skipped() {
    assert_eq!(get_jumpdests(&vec![0x61, 0x5b, 0x5b]), Vec::<usize>::new());
    assert_eq!(get_jumpdests(&vec![0x61, 0x5b, 0x5b, 0x5b]), vec![3]);
}

#[test]
fn standalone_jumpdest_registers() {
    assert_eq!(get_jumpdests(&vec![0x5b, 0x00, 0x5b]), vec![0, 2]);
    assert_eq!(get_jumpdests(&vec![0x7f, 0x5b]), Vec::<usize>::new());
}

#[test]
fn binary_search_finds_targets() {
    let jd = vec![1usize, 4, 9, 20];
    assert_eq!(find_jumpdest(&jd, 9), Some(9));
    assert_eq!(find_jumpdest(&jd, 5), None);
    let mut m = EVM::new();
    m.jumpdests = jd;
    m.pc = 20;
    assert!(is_pc_on_jumpdest(&m));
    m.pc = 21;
    assert!(!is_pc_on_jumpdest(&m));
}

#[test]
fn jump_to_jumpdest() {
    // PUSH1 4, JUMP, INVALID, JUMPDEST, PUSH1 9
    let r = run(vec![0x60, 0x04, 0x56, 0xfe, 0x5b, 0x60, 0x09]).unwrap();
    assert!(r.success);
    assert_eq!(r.stack, vec![w(9)]);
}

#[test]
fn jump_into_push_data_fails() {
    // PUSH1 0x03, JUMP, PUSH1 0x5b
    assert_eq!(run(vec![0x60, 0x04, 0x56, 0x60, 0x5b]).err(), Some(EvmError::InvalidJump));
}

#[test]
fn jumpi_with_zero_falls_through() {
    // PUSH1 0, PUSH1 6, JUMPI, PUSH1 1, STOP, JUMPDEST
    let r = run(vec![0x60, 0x00, 0x60, 0x08, 0x57, 0x60, 0x01, 0x00, 0x5b]).unwrap();
    assert_eq!(r.stack, vec![w(1)]);
    let r = run(vec![0x60, 0x01, 0x60, 0x08, 0x57, 0x60, 0x01, 0x00, 0x5b]).unwrap();
    assert!(r.stack.is_empty());
}

#[test]
fn pc_pushes_its_offset() {
    let r = run(vec![0x60, 0x00, 0x50, 0x58]).unwrap();
    assert_eq!(r.stack, vec![w(3)]);
}

#[test]
fn gas_pushes_max() {
    let r = top_of(vec![0x5a]);
    assert_eq!(r, Word::max_value());
}

#[test]
fn underflow_is_an_error() {
    assert_eq!(run(vec![0x01]).err(), Some(EvmError::StackUnderflow));
    assert_eq!(run(vec![0x50]).err(), Some(EvmError::StackUnderflow));
}

#[test]
fn unknown_opcode_is_an_error() {
    assert_eq!(run(vec![0x0c]).err(), Some(EvmError::UnknownOpcode(0x0c)));
}

#[test]
fn missing_push_data_is_an_error() {
    assert_eq!(run(vec![0x61, 0x01]).err(), Some(EvmError::MissingPushData));
}

#[test]
fn stack_overflow_is_an_error() {
    let mut code = Vec::new();
    for _ in 0..1025 {
        code.push(0x58);
    }
    assert_eq!(run(code).err(), Some(EvmError::StackOverflow));
}

#[test]
fn stack_of_1024_is_fine() {
    let mut code = Vec::new();
    for _ in 0..1024 {
        code.push(0x58);
    }
    assert_eq!(run(code).unwrap().stack.len(), 1024);
}

#[test]
fn memory_limit_is_an_error() {
    // PUSH4 0xffffffff, MLOAD
    assert_eq!(run(vec![0x63, 0xff, 0xff, 0xff, 0xff, 0x51]).err(), Some(EvmError::MemoryLimit));
}

#[test]
fn mstore_then_mload() {
    // PUSH2 0x1234, PUSH1 0x40, MSTORE, PUSH1 0x40, MLOAD
    let r = top_of(vec![0x61, 0x12, 0x34, 0x60, 0x40, 0x52, 0x60, 0x40, 0x51]);
    assert_eq!(r, w(0x1234));
    // reading one byte later shifts the word left by 8 bits
    let r = top_of(vec![0x61, 0x12, 0x34, 0x60, 0x40, 0x52, 0x60, 0x41, 0x51]);
    assert_eq!(r, w(0x123400));
}

#[test]
fn memory_grows_in_words() {
    let mut m = EVM::new();
    m.stack.push(w(0xab));
    m.stack.push(w(33));
    assert_eq!(evm::memory::mstore8(&mut m), Ok(NextAction::Continue));
    assert_eq!(m.memory.len(), 64);
    assert_eq!(m.msize, 64);
    assert_eq!(m.memory[33], 0xab);
    assert_eq!(m.memory[32], 0);
}

#[test]
fn mload_of_fresh_memory_is_zero() {
    let r = top_of(vec![0x60, 0x00, 0x51]);
    assert_eq!(r, w(0));
}

#[test]
fn opcode_table_has_families() {
    let t = get_opcodes();
    assert_eq!(t.len(), 256);
    assert_eq!(t[0x60], Some(Opcode::Push(1)));
    assert_eq!(t[0x7f], Some(Opcode::Push(32)));
    assert_eq!(t[0x80], Some(Opcode::Dup(1)));
    assert_eq!(t[0x8f], Some(Opcode::Dup(16)));
    assert_eq!(t[0x90], Some(Opcode::Swap(1)));
    assert_eq!(t[0x9f], Some(Opcode::Swap(16)));
    assert_eq!(t[0x01], Some(Opcode::Add));
    assert_eq!(t[0xfe], Some(Opcode::Invalid));
    assert_eq!(t[0x0b], None);
    assert_eq!(t[0xa0], None);
}
