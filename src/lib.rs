//! Code generation for hypervisor control/status registers and for the
//! fixed-encoding hypervisor instructions, driven by a compact text grammar.
pub mod bitfield;
pub mod csr;
pub mod enumeration;
pub mod instruction;
pub mod text;

use vstd::prelude::*;

verus! {

/// Why a descriptor text was refused.
#[derive(Debug, Clone, Copy, PartialEq, Eq, Structural)]
pub enum ParseError {
    /// A line lacks one of its required comma-separated parts, or a block
    /// lacks its name or id line.
    MissingPart,
    /// A text that must be an unsigned integer is not one, or does not fit.
    BadNumber,
    /// An enumeration's running counter would pass the largest integer.
    ValueOverflow,
    /// A bit position lies outside the 64-bit register word.
    BitOutOfRange,
    /// A register block has no `end` line.
    MissingEnd,
}

} // verus!
