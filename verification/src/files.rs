//! Generic File System structures
//!
//! Clusters, attributes, directory entries and the handles of open
//! directories and files.
use crate::data_structures::BlockIdx;
use crate::filename::ShortFileName;
use vstd::prelude::*;

verus! {

/// Maximum file size supported by this library
pub const MAX_FILE_SIZE: u32 = 0xFFFF_FFFF;

/// Identifies a cluster on disk.
#[derive(Debug, Copy, Clone, PartialEq, Eq, Structural)]
pub struct Cluster(pub u32);

impl Cluster {
    /// Magic number of an invalid cluster.
    pub const INVALID: u32 = 0xFFFF_FFF6;

    /// Magic number of the cluster holding the root directory.
    pub const ROOT_DIR: u32 = 0xFFFF_FFFC;
}

/// Indicates whether a directory entry is read-only, a directory, and so on.
#[derive(Debug, Copy, Clone, PartialEq, Eq, Structural)]
pub struct Attributes(pub u8);

impl Attributes {
    /// The bit that marks a read-only file.
    pub const READ_ONLY: u8 = 0x01;

    /// The bit that marks a directory.
    pub const DIRECTORY: u8 = 0x10;

    /// The bit that marks a file that changed since it was last archived.
    pub const ARCHIVE: u8 = 0x20;

    /// Whether the directory bit is set.
    pub open spec fn spec_is_directory(self) -> bool {
        self.0 & 0x10 == 0x10
    }

    /// Whether the read-only bit is set.
    pub open spec fn spec_is_read_only(self) -> bool {
        self.0 & 0x01 == 0x01
    }

    /// Builds attributes from the byte of a directory entry.
    pub fn create_from_fat(value: u8) -> (attributes: Attributes)
        ensures
            attributes == Attributes(value),
    {
        Attributes(value)
    }

    /// Does this entry describe a directory?
    pub fn is_directory(self) -> (flag: bool)
        ensures
            flag == self.spec_is_directory(),
    {
        (self.0 & Self::DIRECTORY) == Self::DIRECTORY
    }

    /// Is this file marked as read-only?
    pub fn is_read_only(self) -> (flag: bool)
        ensures
            flag == self.spec_is_read_only(),
    {
        (self.0 & Self::READ_ONLY) == Self::READ_ONLY
    }

    /// Marks the file as changed, or as archived.
    pub fn set_archive(&mut self, flag: bool)
        ensures
            *final(self) == Attributes(
                if flag {
                    old(self).0 | 0x20
                } else {
                    old(self).0 & !0x20
                },
            ),
    {
        if flag {
            self.0 = self.0 | Self::ARCHIVE;
        } else {
            self.0 = self.0 & !Self::ARCHIVE;
        }
    }
}

/// A moment, as directory entries record it.
#[derive(Debug, Copy, Clone, PartialEq, Eq, Structural)]
pub struct Timestamp {
    /// Add 1970 to this value to get the calendar year
    pub year_since_1970: u8,
    /// Add one to this value to get the calendar month
    pub zero_indexed_month: u8,
    /// Add one to this value to get the calendar day
    pub zero_indexed_day: u8,
    /// The number of hours past midnight
    pub hours: u8,
    /// The number of minutes past the hour
    pub minutes: u8,
    /// The number of seconds past the minute
    pub seconds: u8,
}

/// The different ways we can open a file.
#[derive(Debug, Copy, Clone, PartialEq, Eq, Structural)]
pub enum Mode {
    /// Open a file for reading, if it exists.
    ReadOnly,
    /// Open a file for appending (writing to the end of the existing file), if it exists.
    ReadWriteAppend,
    /// Open a file and remove all contents, before writing to the start of the existing file, if it exists.
    ReadWriteTruncate,
    /// Create a new empty file. Fail if it exists.
    ReadWriteCreate,
    /// Create a new empty file, or truncate an existing file.
    ReadWriteCreateOrTruncate,
    /// Create a new empty file, or append to an existing file.
    ReadWriteCreateOrAppend,
}

/// What a directory says about one file or subdirectory.
#[derive(Clone, Copy)]
pub struct DirEntry {
    /// The name of the file
    pub name: ShortFileName,
    /// When the file was last modified
    pub mtime: Timestamp,
    /// When the file was first created
    pub ctime: Timestamp,
    /// The file attributes (Read Only, Archive, etc)
    pub attributes: Attributes,
    /// The starting cluster of the file. The FAT tells us the following Clusters.
    pub cluster: Cluster,
    /// The size of the file in bytes.
    pub size: u32,
    /// The disk block of this entry
    pub entry_block: BlockIdx,
    /// The offset on its block (in bytes)
    pub entry_offset: u32,
}

/// Represents an open directory on disk.
pub struct Directory {
    /// The starting point of the directory listing.
    pub cluster: Cluster,
    /// Dir Entry of this directory. None for the root directory
    pub entry: Option<DirEntry>,
}

/// Represents an open file on disk.
pub struct File {
    /// The starting point of the file.
    pub starting_cluster: Cluster,
    /// The current cluster, and how many bytes that short-cuts us
    pub current_cluster: (u32, Cluster),
    /// How far through the file we've read (in bytes).
    pub current_offset: u32,
    /// The length of the file, in bytes.
    pub length: u32,
    /// What mode the file was opened in
    pub mode: Mode,
    /// Dir Entry of this file
    pub entry: DirEntry,
}

impl File {
    /// The position lies within the file.
    pub open spec fn wf(self) -> bool {
        self.current_offset <= self.length
    }

    /// A file that was just opened, positioned at its start.
    pub open spec fn opened(entry: DirEntry, mode: Mode) -> File {
        File {
            starting_cluster: entry.cluster,
            current_cluster: (0, entry.cluster),
            current_offset: 0,
            length: entry.size,
            mode,
            entry,
        }
    }

    /// Opens the file of a directory entry at its start.
    pub(crate) fn open(entry: DirEntry, mode: Mode) -> (file: File)
        ensures
            file == File::opened(entry, mode),
            file.wf(),
    {
        File {
            starting_cluster: entry.cluster,
            current_cluster: (0, entry.cluster),
            current_offset: 0,
            length: entry.size,
            mode,
            entry,
        }
    }

    /// Are we at the end of the file?
    pub fn eof(&self) -> (at_end: bool)
        ensures
            at_end == (self.current_offset == self.length),
    {
        self.current_offset == self.length
    }

    /// Amount of file left to read.
    pub fn left(&self) -> (bytes: u32)
        requires
            self.wf(),
        ensures
            bytes == self.length - self.current_offset,
    {
        self.length - self.current_offset
    }

    /// Moves to the end of the file.
    pub(crate) fn seek_to_end(&mut self)
        requires
            old(self).wf(),
        ensures
            *final(self) == (File { current_offset: old(self).length, ..*old(self) }),
            final(self).wf(),
    {
        self.current_offset = self.length;
    }

    /// Moves forward within the file.
    pub(crate) fn seek_forward(&mut self, offset: u32)
        requires
            old(self).wf(),
            old(self).current_offset + offset <= old(self).length,
        ensures
            *final(self) == (File {
                current_offset: (old(self).current_offset + offset) as u32,
                ..*old(self)
            }),
            final(self).wf(),
    {
        self.current_offset = self.current_offset + offset;
    }

    /// Records a new length, here and in the directory entry.
    pub(crate) fn update_length(&mut self, new: u32)
        ensures
            *final(self) == (File {
                length: new,
                entry: DirEntry { size: new, ..old(self).entry },
                ..*old(self)
            }),
    {
        self.length = new;
        self.entry.size = new;
    }
}

} // verus!
