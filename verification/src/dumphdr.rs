//! Validation of a crash-dump header.
//!
//! A dump device begins (after a fixed pad) with a small header: a magic
//! number, a version, and a flag word whose lowest bit says whether the
//! device holds a dump that has not been collected yet. The fields are read
//! big-endian. The caller reads the twelve header bytes from the device; the
//! validation itself is here.

use vstd::prelude::*;

verus! {

#[derive(Debug, Clone, Copy, PartialEq, Eq, Structural)]
pub enum DumpHdrError {
    /// The header could not be read in full.
    IoError,
    /// The magic number is not the expected `0xdefec8ed`.
    InvalidMagic(u32),
    /// The header version is not the expected `10`.
    InvalidVersion(u32),
}

pub const DUMP_MAGIC: u32 = 0xdefec8ed;

pub const DUMP_VERSION: u32 = 10;

/// The big-endian 32-bit word at offset `off`.
pub open spec fn be32(s: Seq<u8>, off: int) -> nat {
    (s[off] as nat) * 0x1000000 + (s[off + 1] as nat) * 0x10000 + (s[off + 2] as nat) * 0x100 + (s[off + 3] as nat)
}

/// Whether a dump header declares a valid, uncollected dump.
///
/// The twelve bytes are the magic number, the version, and the flag word,
/// each big-endian; the flag word's lowest bit is the validity flag. A
/// short read is an `IoError`; a wrong magic number or version is reported
/// with the value found.
pub fn dump_flag_is_valid(header: &[u8]) -> (r: Result<bool, DumpHdrError>)
    ensures
        match r {
            Ok(b) => header@.len() >= 12 && be32(header@, 0) == DUMP_MAGIC && be32(header@, 4)
                == DUMP_VERSION && b == (be32(header@, 8) % 2 == 1),
            Err(e) => match e {
                DumpHdrError::IoError => header@.len() < 12,
                DumpHdrError::InvalidMagic(mg) => header@.len() >= 12 && mg == be32(header@, 0)
                    && be32(header@, 0) != DUMP_MAGIC,
                DumpHdrError::InvalidVersion(v) => header@.len() >= 12 && be32(header@, 0)
                    == DUMP_MAGIC && v == be32(header@, 4) && be32(header@, 4) != DUMP_VERSION,
            },
        },
{
    if header.len() < 12 {
        return Err(DumpHdrError::IoError);
    }
    let magic = read_be32(header, 0);
    if magic != DUMP_MAGIC {
        return Err(DumpHdrError::InvalidMagic(magic));
    }
    let version = read_be32(header, 4);
    if version != DUMP_VERSION {
        return Err(DumpHdrError::InvalidVersion(version));
    }
    let flags = read_be32(header, 8);
    Ok(flags % 2 == 1)
}

/// Reads the big-endian 32-bit word at offset `off`.
fn read_be32(s: &[u8], off: usize) -> (r: u32)
    requires
        off + 4 <= s@.len(),
    ensures
        r == be32(s@, off as int),
{
    (s[off] as u32) * 0x1000000 + (s[off + 1] as u32) * 0x10000 + (s[off + 2] as u32) * 0x100 + (
    s[off + 3] as u32)
}

} // verus!
