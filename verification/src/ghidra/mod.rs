pub mod opcode;
pub mod types;
pub mod compound;
pub mod pcode;
pub mod ssa;
