//! FAT16/FAT32 file system parameters.
//!
//! Supports FAT16 and FAT32 volumes.
use vstd::prelude::*;

verus! {

/// Number of entries reserved at the start of a File Allocation Table
pub const RESERVED_ENTRIES: u32 = 2;

/// Identifies the supported types of FAT format
#[derive(Debug, Copy, Clone, PartialEq, Eq, Structural)]
pub enum FatType {
    /// FAT16 Format
    Fat16,
    /// FAT32 Format
    Fat32,
}

/// What the file operations need to know about a mounted FAT volume.
#[derive(Debug, Copy, Clone, PartialEq, Eq, Structural)]
pub struct FatVolume {
    /// The format of the File Allocation Table.
    pub fat_type: FatType,
    /// The size of one allocation unit in bytes.
    pub bytes_per_cluster: u32,
}

} // verus!
