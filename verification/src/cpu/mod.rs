pub mod alu;
pub mod decoder;
pub mod disassembler;
pub mod flags;
pub mod instruction;
pub mod tokens;
pub mod state;
pub mod exec;
pub mod laws;
