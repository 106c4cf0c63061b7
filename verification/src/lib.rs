//! Decoder and renderer for two-byte Intel 8086 register-to-register
//! instructions, together with a packer that turns text made of binary
//! digits into raw bytes.

pub mod error;
pub mod registers;
pub mod instruction;
pub mod bitpack;
pub mod disasm;
pub mod text;
