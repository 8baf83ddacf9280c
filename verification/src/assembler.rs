//! Machine-code generation: little-endian value encoding, a growable code
//! buffer with labels and relocations, and the x86 instruction encoders.

pub mod base_assembler;
pub mod encoding;
pub mod state;
pub mod x86_assembler;
