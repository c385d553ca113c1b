//! The error a single execution cycle can report.

use vstd::prelude::*;

verus! {

/// Why one execution cycle could not complete normally.
///
/// An unhandled opcode is non-fatal: the program counter has already moved
/// past it, and the caller decides whether to halt or to keep stepping.
/// The other kinds report a machine-state discipline violation before any
/// state was changed.
#[derive(Clone, Copy, Debug, PartialEq, Eq, Structural)]
pub enum EmulateCycleError {
    /// The fetched opcode matches no instruction; carries the opcode.
    UnhandledOpcode { op: u16 },
    /// A `2nnn` call would push beyond the sixteen-entry stack.
    StackOverflow,
    /// A `00EE` return was executed with an empty stack.
    StackUnderflow,
    /// A computed address fell outside the 4096-byte memory, or a key index
    /// fell outside the sixteen-key keypad.
    MemoryOutOfBounds,
}

/// The text `message` returns for each error kind: the unhandled opcode in
/// upper-case hexadecimal followed by ` opcode not handled`, or a fixed
/// sentence for the stack and bounds errors.
pub open spec fn spec_message(e: EmulateCycleError) -> Seq<char> {
    match e {
        EmulateCycleError::UnhandledOpcode { op } => crate::disassembler::spec_hex(op as int) + " opcode not handled"@,
        EmulateCycleError::StackOverflow => "call stack overflow"@,
        EmulateCycleError::StackUnderflow => "call stack underflow"@,
        EmulateCycleError::MemoryOutOfBounds => "address out of bounds"@,
    }
}

impl EmulateCycleError {
    /// A human-readable description of the error.
    pub fn message(&self) -> (r: String)
        ensures
            r@ == spec_message(*self),
    {
        match *self {
            EmulateCycleError::UnhandledOpcode { op } => {
                let mut s = crate::disassembler::hex_string(op);
                s.append(" opcode not handled");
                s
            },
            EmulateCycleError::StackOverflow => String::from_str("call stack overflow"),
            EmulateCycleError::StackUnderflow => String::from_str("call stack underflow"),
            EmulateCycleError::MemoryOutOfBounds => String::from_str("address out of bounds"),
        }
    }
}

} // verus!
