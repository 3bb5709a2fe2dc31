//! A small just-in-time assembler for x86-64.
//!
//! Instructions are pushed into an [`x64::Assembler`], which encodes them
//! into machine code, resolves label references, and finally copies the
//! program into an executable memory region.

use vstd::prelude::*;

pub mod decode;
pub mod defs;
pub mod encoding;
pub mod labels;
pub mod region;
pub mod session;
pub mod text;
pub mod x64;

verus! {

/// Everything that can go wrong while assembling or materialising code.
#[derive(Debug, Clone, Copy, PartialEq, Eq, Structural)]
pub enum Error {
    /// The executable region could not be acquired from the system.
    MmapCreate,
    /// The region could not be switched from writable to executable.
    MmapSetMode,
    /// Reserved: an operation needed a program and found none.
    EmptyBuffer,
    /// Reserved: an operation was attempted in a state that forbids it.
    InvalidOperation,
    /// The encoded bytes could not be appended to the program buffer.
    Serialize,
    /// A jump names a label that is defined nowhere in the program.
    UnknownLabel,
    /// The instruction has no encoding for the operands it was given.
    Nyi,
}

} // verus!
