//! A fetch-decode-execute interpreter for a small virtual CPU: sixteen
//! byte-wide registers, 4096 bytes of memory, 16-bit opcodes and a bounded
//! call stack.
//!
//! `machine` holds the mathematical model of the CPU and its semantics,
//! `cpu` the executable interpreter proved against that model, and `laws`
//! the theorems that hold of every execution.

pub mod cpu;
pub mod fault;
pub mod laws;
pub mod machine;
pub mod opcode;

pub use cpu::Cpu;
pub use fault::Fault;
pub use machine::{Status, FLAG_REGISTER, MEMORY_SIZE, REGISTER_COUNT, STACK_CAPACITY};
pub use opcode::{decode, Instruction};
