//! An assembler for a one-byte-per-instruction toy CPU.
//!
//! Source text is split into lines, each non-blank line is resolved to an
//! opcode, its operands are validated, and the result is packed into a byte.
//! A program image is a magic header followed by those bytes.
pub mod decode;
pub mod error;
pub mod isa;
pub mod program;
pub mod text;
