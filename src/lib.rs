//! An assembler for RISC-V textual assembly: text in, 32-bit machine words out.
//!
//! The pipeline (`compiler::compile`) reads the text into lines (`line`), expands
//! `li` and the simple aliases (`pseudo`), gives every instruction and label its
//! address (`address`), and encodes each instruction by the field layout of its
//! mnemonic (`encoder`, `encoding`, `bits`). The tables it works from are plain data
//! (`isa`), and `standard` holds RV32I with the M and Zicsr extensions.
pub mod text;
pub mod bits;
pub mod immediate;
pub mod register;
pub mod param;
pub mod number;
pub mod line;
pub mod error;
pub mod table;
pub mod pseudo;
pub mod encoding;
pub mod isa;
pub mod address;
pub mod encoder;
pub mod compiler;
pub mod standard;
