//! Builder for dual-core handheld cartridge ROM images.
//!
//! The library turns two executable images (one per processor core)
//! into a single cartridge ROM: it extracts the loadable segments of
//! each executable, places them at the console-mandated file offsets
//! with the required alignment and gap rules, and writes the fixed
//! binary header with its two CRC-16 checksums.

use vstd::prelude::*;

pub mod bytes;
pub mod crc;
pub mod exec_image;
pub mod header;
pub mod layout;
pub mod rom;

verus! {

/// A fatal error that aborts the whole build.
#[derive(Debug, Clone, Copy, PartialEq, Eq, Structural)]
pub enum RomError {
    /// The executable is not a well-formed 32-bit little-endian image,
    /// or a loadable segment lies outside the file or outside the
    /// 32-bit address space.
    MalformedExecutable,
    /// The executable targets a machine other than the expected one.
    WrongArchitecture,
    /// The executable declares no loadable segment with both a file
    /// size and a memory size.
    NoLoadableSegments,
    /// Two loadable segments claim overlapping target addresses, or a
    /// later segment starts below the end of an earlier one.
    OverlappingSegments,
    /// The finished image would not fit the 4-byte total-size field of
    /// the header.
    ImageTooLarge,
}

} // verus!
