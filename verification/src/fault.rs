//! The failures that stop loading or running a program.

use vstd::prelude::*;

verus! {

/// Why a program could not be loaded, a word could not be decoded or an
/// instruction could not be carried out. Each of them ends the run: nothing
/// is retried and nothing is skipped.
#[derive(Debug, Clone, Copy, PartialEq, Eq)]
pub enum Fault {
    /// The opcode belongs to none of the three forms, or to no operation of
    /// the form it was found in.
    UnknownOpcode { opcode: u32 },
    /// A register-form instruction carries a function code with no operation.
    UnknownFunction { code: u32 },
    /// A load addressed a location that no store has written.
    UnmappedRead { address: u32 },
    /// A line of program text is not a 32-bit hexadecimal number. Lines are
    /// counted from 0.
    MalformedWord { line: usize },
}

} // verus!
