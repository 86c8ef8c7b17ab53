//! The instruction pipeline: register file, flag word, operand model,
//! decoder and executor, tied together by the CPU shell.

pub mod alu;
pub mod cpu;
pub mod encode;
pub mod flags;
pub mod op;
pub mod op_exec;
pub mod operand;
pub mod register;
