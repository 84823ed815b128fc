use vstd::prelude::*;

verus! {

/// Errors that the execution path can surface: a program counter past the
/// end of memory, a call that would overflow the sixteen-entry stack (or a
/// return from an empty one), a program too large for the program region,
/// and an opcode that no decode rule matches.
#[derive(Clone, Copy, Debug, PartialEq, Eq, Structural)]
pub enum ChipError {
    PcOutOfBounds(u16),
    SpOutOfBounds(usize),
    RomTooBig(usize),
    UnrecognizedOpcode(u16),
}

/// Errors of the debug surface: each setter validates its arguments and
/// reports the offending value instead of mutating anything.
#[derive(Clone, Copy, Debug, PartialEq, Eq, Structural)]
pub enum DebugChipError {
    AddrOutOfBounds(usize),
    PcOutOfBounds(u16),
    StackAddrOutOfBounds(u16),
    SpOutOfBounds(usize),
    IndexTooBig(u16),
    NoRegister(usize),
    NoKey(usize),
    NoPixel(usize, usize),
}

} // verus!
