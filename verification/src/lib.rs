pub mod text;
pub mod xml;
pub mod utils;
pub mod sleigh;
pub mod arch;
pub mod sla_parser;
pub mod sla_syntax;
pub mod symbol_resolver;
pub mod pcode_builder;
pub mod disassembler;
pub mod ghidra;
pub mod binary;
