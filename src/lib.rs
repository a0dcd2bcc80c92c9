pub mod arithmetic;
pub mod evm;
pub mod jumpdest;
pub mod laws;
pub mod logic;
pub mod memory;
pub mod misc;
pub mod ops;
pub mod semantics;
pub mod stack;
pub mod table;
pub mod word;
