//! The faults that stop the machine.
use vstd::prelude::*;

verus! {

/// A fault of a running program. Each one ends the run.
#[derive(Debug, Clone, Copy, PartialEq, Eq, Structural)]
pub enum UmError {
    /// The opcode, taken from the top four bits of an instruction, is not one
    /// of the fourteen the machine defines.
    InvalidOpcode(u32),
    /// A segment identifier that is not mapped was used.
    UnmappedSegment(u32),
    /// An index at or past the end of a mapped segment was used.
    OutOfBoundsIndex { segment: u32, index: u32 },
    /// Division by a register holding zero.
    DivisionByZero,
    /// Output of a register value above 255.
    OutputByteRangeError(u32),
    /// Unmapping a nonzero identifier that is not mapped.
    DoubleUnmap(u32),
    /// Unmapping segment 0, which holds the running program.
    UnmapSegmentZero,
    /// Mapping a segment while every nonzero identifier is in use.
    SegmentIdsExhausted,
}

} // verus!
