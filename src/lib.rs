//! A disassembler front-end for a small subset of 16-bit x86: the `mov`
//! forms between registers and memory, and `mov` of an immediate into a
//! register. Bytes go in, lines of assembly text come out.

pub mod cursor;
pub mod decoder;
pub mod instruction;
pub mod lemmas;
pub mod modrm;
pub mod tables;
