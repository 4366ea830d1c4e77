//! A verified CHIP-8 core: fixed memory space, register file, instruction
//! decoding and the fetch/decode/execute cycle, a monochrome framebuffer
//! with XOR-sprite blitting, and the key map of the 16-key input device.
//!
//! Rendering, the host event pump and ROM file loading are external
//! collaborators: the core only consumes plain values they hand it.

use vstd::prelude::*;

pub mod cpu;
pub mod debug_levels;
pub mod display;
pub mod keyboard;
pub mod memory;

verus! {

/// A fatal condition surfaced to the run loop: an out-of-range address, or a
/// call stack pushed past its depth or popped while empty.
#[derive(Debug, PartialEq, Eq, Structural, Clone, Copy)]
pub enum Fault {
    AddressFault,
    StackOverflow,
    StackUnderflow,
}

} // verus!
