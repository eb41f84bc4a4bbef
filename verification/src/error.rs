//! The failures that a running machine reports to its caller.

use vstd::prelude::*;

verus! {

/// Why a machine operation failed.  Every failure is fatal to the machine that
/// raised it: nothing is retried.
#[derive(Debug, Clone, Copy, PartialEq, Eq, Structural)]
pub enum VmError {
    /// A register index outside the register file.
    InvalidRegister,
    /// A pop from an empty stack.
    StackUnderflow,
    /// A memory access outside the reserved region.
    AddressingError,
    /// The fetched operation has no defined behaviour.
    UnsupportedOpcode,
    /// A snapshot that does not describe a machine.
    SerializationError,
    /// A console or file failure, raised by whoever performs the I/O.
    IOError,
    /// The terminator was reached: the program ended without an exit.
    EndedWithoutExit,
    /// The program counter left the program: the program has no terminator.
    ProgramCounterOutOfBounds,
}

} // verus!
