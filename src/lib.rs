//! An interpreter for the classic 8-bit virtual machine with 4 KiB of memory,
//! sixteen byte registers, a 64x32 monochrome display and a sixteen-key pad.
pub mod instruction;
pub mod interpreter;
pub mod laws;
pub mod nibbles;
