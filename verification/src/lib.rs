//! An assembler and a microprogrammed CPU simulator for a word-oriented
//! machine with sixteen 16-bit registers.

pub mod memory;
pub mod processor;
pub mod text;
pub mod assembler;
pub mod microprogram;
