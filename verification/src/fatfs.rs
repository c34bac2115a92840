//! The FAT file system controller.
//!
//! The controller decides; whoever runs it performs the work on the block
//! device and on the File Allocation Table. An operation that needs such work
//! says so in its result, and goes on in a method that takes the outcome of
//! the work as an argument.
use crate::data_structures::{
    BlockCount, BlockIdx, Error, Volume, VolumeIdx, VolumeType, PARTITION_ID_FAT16,
    PARTITION_ID_FAT16_LBA, PARTITION_ID_FAT32_CHS_LBA, PARTITION_ID_FAT32_LBA,
};
use crate::error_code::ErrorCode;
use crate::filename::{short_name, FilenameError, ShortFileName};
use crate::files::{Attributes, Cluster, DirEntry, Directory, File, Mode};
use crate::handles::{
    any_in_use, find_row, first_free, first_free_row, freed, is_free, is_open, last_free, last_free_row,
    lemma_first_free, lemma_last_free, lemma_row_of, no_item_twice, row_of,
};
use crate::little_endian::{le_u16, le_u32, read_u16, read_u32};
use vstd::prelude::*;
use vstd::slice::slice_subrange;

verus! {

/// Stores the last state that the controller was in, before an async
/// call was made to read a block from the underlying device.
#[derive(Debug, PartialEq, Clone, Copy)]
pub enum CurrentAsyncOperation {
    /// Nothing is going on.
    Idle,
    /// An operation was launched to retrieve a volume.
    GetVolume {
        /// Which volume is retrieved.
        volume_idx: u32,
    },
    /// An operation was launched to find the directory entry.
    /// This operation is long since it goes through clusters to find the entry.
    FindDirectoryEntryFat32 {
        /// The name that is looked for.
        name: ShortFileName,
        /// The cluster that is searched.
        current_cluster: u32,
        /// The last cluster to search.
        last_cluster: u32,
    },
}

/// A listener for what the controller has to report.
pub trait FatFsClient {
    /// Callback for when the `FatFs::get_volume()` operation finishes.
    fn on_get_volume_done(&self, result: Result<Volume, Error>);
}

/// Where a partition lies on the disk.
#[derive(Debug, Copy, Clone, PartialEq, Eq, Structural)]
pub struct Partition {
    /// The first block of the partition.
    pub lba_start: BlockIdx,
    /// The number of blocks in the partition.
    pub num_blocks: BlockCount,
}

/// What is to be done after a block was read.
#[derive(Debug, Copy, Clone, PartialEq, Eq, Structural)]
pub enum ReadOutcome {
    /// The controller was not waiting for the block.
    Ignored,
    /// The file system in this partition is to be examined, and what was found
    /// handed to `FatFs::volume_parsed`.
    ParseVolume(Partition),
    /// The client is to be told that there is no such volume.
    Failed(Error),
}

/// The partition types that hold a file system we support.
pub open spec fn is_fat_partition(part_type: u8) -> bool {
    ||| part_type == PARTITION_ID_FAT32_CHS_LBA
    ||| part_type == PARTITION_ID_FAT32_LBA
    ||| part_type == PARTITION_ID_FAT16_LBA
    ||| part_type == PARTITION_ID_FAT16
}

/// The entry for a partition in the Master Boot Record.
pub open spec fn partition_entry(block: Seq<u8>, idx: int) -> Seq<u8> {
    block.subrange(446 + 16 * idx, 446 + 16 * idx + 16)
}

/// What the Master Boot Record says about a partition. The record ends in
/// 0xAA55; an entry begins with 0x80 (bootable) or 0x00 (non-bootable) and
/// gives the type, the first block and the number of blocks.
pub open spec fn find_partition(block: Seq<u8>, idx: int) -> Result<Partition, Error> {
    let entry = partition_entry(block, idx);
    if le_u16(block.subrange(510, 512)) != 0xAA55 {
        Err(Error::FormatError)
    } else if !(0 <= idx < 4) {
        Err(Error::NoSuchVolume)
    } else if entry[0] != 0x00 && entry[0] != 0x80 {
        Err(Error::FormatError)
    } else if !is_fat_partition(entry[4]) {
        Err(Error::FormatError)
    } else {
        Ok(
            Partition {
                lba_start: BlockIdx(le_u32(entry.subrange(8, 12)) as u32),
                num_blocks: BlockCount(le_u32(entry.subrange(12, 16)) as u32),
            },
        )
    }
}

/// The state after a volume was asked for, and the block to read for it.
pub open spec fn volume_requested(
    state: Option<CurrentAsyncOperation>,
    volume_idx: VolumeIdx,
) -> (Option<CurrentAsyncOperation>, Result<BlockIdx, ErrorCode>) {
    match state {
        None => (state, Err(ErrorCode::FAIL)),
        Some(CurrentAsyncOperation::Idle) => (
            Some(CurrentAsyncOperation::GetVolume { volume_idx: volume_idx.0 as u32 }),
            Ok(BlockIdx(0)),
        ),
        Some(_) => (state, Err(ErrorCode::BUSY)),
    }
}

/// The state after a block arrived, and what to do with it.
pub open spec fn block_arrived(
    state: Option<CurrentAsyncOperation>,
    block: Seq<u8>,
) -> (Option<CurrentAsyncOperation>, ReadOutcome) {
    match state {
        Some(CurrentAsyncOperation::GetVolume { volume_idx }) => match find_partition(
            block,
            volume_idx as int,
        ) {
            Ok(partition) => (state, ReadOutcome::ParseVolume(partition)),
            Err(e) => (Some(CurrentAsyncOperation::Idle), ReadOutcome::Failed(e)),
        },
        _ => (state, ReadOutcome::Ignored),
    }
}

/// The state after a partition was examined, and what to tell the client.
pub open spec fn volume_examined(
    state: Option<CurrentAsyncOperation>,
    parsed: Result<VolumeType, Error>,
) -> (Option<CurrentAsyncOperation>, Option<Result<Volume, Error>>) {
    match state {
        Some(CurrentAsyncOperation::GetVolume { volume_idx }) => (
            Some(CurrentAsyncOperation::Idle),
            Some(
                match parsed {
                    Ok(volume_type) => Ok(
                        Volume { idx: VolumeIdx(volume_idx as usize), volume_type },
                    ),
                    Err(e) => Err(e),
                },
            ),
        ),
        _ => (state, None),
    }
}

/// The state after the retrieval of a volume, if there was one, has ended.
pub open spec fn retrieval_ended(state: Option<CurrentAsyncOperation>) -> Option<
    CurrentAsyncOperation,
> {
    match state {
        Some(CurrentAsyncOperation::GetVolume { .. }) => Some(CurrentAsyncOperation::Idle),
        _ => state,
    }
}

/// What opening the root directory of a volume comes to. A directory cannot be
/// opened twice.
pub open spec fn root_dir_outcome(
    rows: Seq<(VolumeIdx, Cluster)>,
    idx: VolumeIdx,
) -> Result<Directory, Error> {
    if rows.contains((idx, Cluster(Cluster::ROOT_DIR))) {
        Err(Error::DirAlreadyOpen)
    } else if first_free(rows, 0) == rows.len() {
        Err(Error::TooManyOpenDirs)
    } else {
        Ok(Directory { cluster: Cluster(Cluster::ROOT_DIR), entry: None })
    }
}

/// What opening a directory comes to, given what the search for its entry
/// found.
pub open spec fn dir_outcome(
    rows: Seq<(VolumeIdx, Cluster)>,
    idx: VolumeIdx,
    found: Result<DirEntry, Error>,
) -> Result<Directory, Error> {
    if last_free(rows) < 0 {
        Err(Error::TooManyOpenDirs)
    } else {
        match found {
            Err(e) => Err(e),
            Ok(entry) => if !entry.attributes.spec_is_directory() {
                Err(Error::OpenedDirAsFile)
            } else if rows.contains((idx, entry.cluster)) {
                Err(Error::DirAlreadyOpen)
            } else {
                Ok(Directory { cluster: entry.cluster, entry: Some(entry) })
            },
        }
    }
}

/// How the opening of a file goes on.
pub enum OpenStep {
    /// The file is open.
    Opened(File),
    /// The cluster chain of the file is to be truncated, and the outcome handed
    /// to `FatFs::chain_truncated`.
    Truncate(File),
    /// A directory entry with this name and these attributes is to be written,
    /// and the outcome handed to `FatFs::entry_created`.
    Create(ShortFileName, Attributes),
}

/// The mode that a mode with an alternative stands for.
pub open spec fn solved_mode(mode: Mode, dir_entry_is_some: bool) -> Mode {
    match mode {
        Mode::ReadWriteCreateOrAppend => if dir_entry_is_some {
            Mode::ReadWriteAppend
        } else {
            Mode::ReadWriteCreate
        },
        Mode::ReadWriteCreateOrTruncate => if dir_entry_is_some {
            Mode::ReadWriteTruncate
        } else {
            Mode::ReadWriteCreate
        },
        _ => mode,
    }
}

/// Whether a mode allows a file to be created.
pub open spec fn may_create(mode: Mode) -> bool {
    ||| mode == Mode::ReadWriteCreate
    ||| mode == Mode::ReadWriteCreateOrTruncate
    ||| mode == Mode::ReadWriteCreateOrAppend
}

/// What opening the file of a directory entry comes to.
pub open spec fn entry_outcome(
    rows: Seq<(VolumeIdx, Cluster)>,
    idx: VolumeIdx,
    entry: DirEntry,
    mode: Mode,
) -> Result<OpenStep, Error> {
    if last_free(rows) < 0 {
        Err(Error::TooManyOpenFiles)
    } else if rows.contains((idx, entry.cluster)) {
        Err(Error::FileAlreadyOpen)
    } else if entry.attributes.spec_is_directory() {
        Err(Error::OpenedDirAsFile)
    } else if entry.attributes.spec_is_read_only() && mode != Mode::ReadOnly {
        Err(Error::ReadOnly)
    } else {
        match solved_mode(mode, true) {
            Mode::ReadOnly => Ok(OpenStep::Opened(File::opened(entry, Mode::ReadOnly))),
            Mode::ReadWriteAppend => Ok(
                OpenStep::Opened(
                    File {
                        current_offset: entry.size,
                        ..File::opened(entry, Mode::ReadWriteAppend)
                    },
                ),
            ),
            Mode::ReadWriteTruncate => Ok(
                OpenStep::Truncate(File::opened(entry, Mode::ReadWriteTruncate)),
            ),
            _ => Err(Error::Unsupported),
        }
    }
}

/// Whether `result` is what opening a file by its name comes to, given what
/// the search for its entry found.
pub open spec fn is_file_outcome(
    rows: Seq<(VolumeIdx, Cluster)>,
    idx: VolumeIdx,
    found: Result<DirEntry, Error>,
    name: Seq<u8>,
    mode: Mode,
    result: Result<OpenStep, Error>,
) -> bool {
    if last_free(rows) < 0 {
        result == Err::<OpenStep, Error>(Error::TooManyOpenFiles)
    } else {
        match found {
            Ok(entry) => match solved_mode(mode, true) {
                Mode::ReadWriteCreate => result == Err::<OpenStep, Error>(
                    Error::FileAlreadyExists,
                ),
                solved => result == entry_outcome(rows, idx, entry, solved),
            },
            Err(_) => if !may_create(mode) {
                result == Err::<OpenStep, Error>(Error::FileNotFound)
            } else {
                match short_name(name, false) {
                    Ok(contents) => {
                        &&& result matches Ok(OpenStep::Create(file_name, attributes))
                        &&& file_name@ == contents
                        &&& attributes == Attributes(0)
                    },
                    Err(_) => result == Err::<OpenStep, Error>(Error::FilenameError),
                }
            },
        }
    }
}

/// The table of open files after a step of opening a file.
pub open spec fn files_after(
    rows: Seq<(VolumeIdx, Cluster)>,
    idx: VolumeIdx,
    outcome: Result<OpenStep, Error>,
) -> Seq<(VolumeIdx, Cluster)> {
    match outcome {
        Ok(OpenStep::Opened(file)) => rows.update(last_free(rows), (idx, file.starting_cluster)),
        _ => rows,
    }
}

/// Transform mode variants (ReadWriteCreate_Or_Append) to simple modes ReadWriteAppend or
/// ReadWriteCreate
pub fn solve_mode_variant(mode: Mode, dir_entry_is_some: bool) -> (solved: Mode)
    ensures
        solved == solved_mode(mode, dir_entry_is_some),
{
    match mode {
        Mode::ReadWriteCreateOrAppend => if dir_entry_is_some {
            Mode::ReadWriteAppend
        } else {
            Mode::ReadWriteCreate
        },
        Mode::ReadWriteCreateOrTruncate => if dir_entry_is_some {
            Mode::ReadWriteTruncate
        } else {
            Mode::ReadWriteCreate
        },
        _ => mode,
    }
}

/// A row that was not used yet.
pub open spec fn free_row() -> (VolumeIdx, Cluster) {
    (VolumeIdx(0), Cluster(Cluster::INVALID))
}

/// A FatFs controller. The main item.
pub struct FatFs<const MAX_DIRS: usize, const MAX_FILES: usize> {
    /// What the controller is waiting for.
    pub state: Option<CurrentAsyncOperation>,
    /// The block that was read last.
    pub buffer: [u8; 512],
    /// The directories that are open.
    pub open_dirs: [(VolumeIdx, Cluster); MAX_DIRS],
    /// The files that are open.
    pub open_files: [(VolumeIdx, Cluster); MAX_FILES],
}

impl<const MAX_DIRS: usize, const MAX_FILES: usize> FatFs<MAX_DIRS, MAX_FILES> {
    /// Create a new Disk Controller. From this controller we can open volumes
    /// (partitions) and with those we can open files.
    pub fn new(buffer: [u8; 512]) -> (fs: Self)
        ensures
            fs.state == Some(CurrentAsyncOperation::Idle),
            fs.buffer == buffer,
            forall|i: int| 0 <= i < MAX_DIRS ==> #[trigger] fs.open_dirs@[i] == free_row(),
            forall|i: int| 0 <= i < MAX_FILES ==> #[trigger] fs.open_files@[i] == free_row(),
    {
        FatFs {
            state: Some(CurrentAsyncOperation::Idle),
            buffer,
            open_dirs: [(VolumeIdx(0), Cluster(Cluster::INVALID)); MAX_DIRS],
            open_files: [(VolumeIdx(0), Cluster(Cluster::INVALID)); MAX_FILES],
        }
    }

    /// Starts the retrieval process of a volume. The result names the block
    /// that is to be read.
    pub fn get_volume(&mut self, volume_idx: VolumeIdx) -> (result: Result<BlockIdx, ErrorCode>)
        ensures
            (final(self).state, result) == volume_requested(old(self).state, volume_idx),
            final(self).buffer == old(self).buffer,
            final(self).open_dirs == old(self).open_dirs,
            final(self).open_files == old(self).open_files,
    {
        match self.state {
            None => Err(ErrorCode::FAIL),
            Some(CurrentAsyncOperation::Idle) => {
                self.state = Some(
                    CurrentAsyncOperation::GetVolume { volume_idx: volume_idx.0 as u32 },
                );
                Ok(BlockIdx(0))
            },
            Some(_) => Err(ErrorCode::BUSY),
        }
    }

    /// Actual logic of retrieving the volume, after read is done.
    pub fn get_volume_resume(&self, volume_idx: VolumeIdx) -> (result: Result<Partition, Error>)
        ensures
            result == find_partition(self.buffer@, volume_idx.0 as int),
    {
        let block = self.buffer.as_slice();
        // We only support Master Boot Record (MBR) partitioned cards, not
        // GUID Partition Table (GPT)
        if read_u16(slice_subrange(block, 510, 512)) != 0xAA55 {
            return Err(Error::FormatError);
        }
        if volume_idx.0 >= 4 {
            return Err(Error::NoSuchVolume);
        }
        let start: usize = 446 + 16 * volume_idx.0;
        let partition = slice_subrange(block, start, start + 16);
        let ghost entry = partition_entry(self.buffer@, volume_idx.0 as int);
        assert(partition@ =~= entry);
        // Only 0x80 and 0x00 are valid (bootable, and non-bootable)
        let status: u8 = partition[0];
        assert((status & 0x7F) != 0x00 <==> status != 0x00 && status != 0x80) by (bit_vector);
        if (status & 0x7F) != 0x00 {
            return Err(Error::FormatError);
        }
        let lba_start: u32 = read_u32(slice_subrange(partition, 8, 12));
        let num_blocks: u32 = read_u32(slice_subrange(partition, 12, 16));
        let part_type: u8 = partition[4];
        if part_type == PARTITION_ID_FAT32_CHS_LBA || part_type == PARTITION_ID_FAT32_LBA
            || part_type == PARTITION_ID_FAT16_LBA || part_type == PARTITION_ID_FAT16 {
            Ok(Partition { lba_start: BlockIdx(lba_start), num_blocks: BlockCount(num_blocks) })
        } else {
            Err(Error::FormatError)
        }
    }

    /// Takes over a block that the device has read into the buffer. The block
    /// index and the status are not looked at.
    pub fn read_done(&mut self, block: &[u8; 512], block_idx: u32, status: Result<(), ()>) -> (
        outcome: ReadOutcome)
        ensures
            (final(self).state, outcome) == block_arrived(old(self).state, block@),
            final(self).buffer == (if outcome is Ignored {
                old(self).buffer
            } else {
                *block
            }),
            final(self).open_dirs == old(self).open_dirs,
            final(self).open_files == old(self).open_files,
    {
        match self.state {
            Some(CurrentAsyncOperation::GetVolume { volume_idx }) => {
                self.buffer = *block;
                match self.get_volume_resume(VolumeIdx(volume_idx as usize)) {
                    Ok(partition) => ReadOutcome::ParseVolume(partition),
                    Err(e) => {
                        self.state = Some(CurrentAsyncOperation::Idle);
                        ReadOutcome::Failed(e)
                    },
                }
            },
            // Read done, but we were not waiting for a read operation?
            _ => ReadOutcome::Ignored,
        }
    }

    /// A write has finished, which nothing waits for.
    pub fn write_done(&mut self, block: &[u8; 512], block_idx: u32, status: Result<(), ()>)
        ensures
            *final(self) == *old(self),
    {
    }

    /// Ends the retrieval of a volume with what the examination of its
    /// partition found. The result is what the client is to be told.
    pub fn volume_parsed(&mut self, parsed: Result<VolumeType, Error>) -> (report: Option<
        Result<Volume, Error>,
    >)
        ensures
            (final(self).state, report) == volume_examined(old(self).state, parsed),
            final(self).buffer == old(self).buffer,
            final(self).open_dirs == old(self).open_dirs,
            final(self).open_files == old(self).open_files,
    {
        match self.state {
            Some(CurrentAsyncOperation::GetVolume { volume_idx }) => {
                self.state = Some(CurrentAsyncOperation::Idle);
                Some(
                    match parsed {
                        Ok(volume_type) => Ok(
                            Volume { idx: VolumeIdx(volume_idx as usize), volume_type },
                        ),
                        Err(e) => Err(e),
                    },
                )
            },
            _ => None,
        }
    }

    /// Gives up the retrieval of a volume, if there is one: the block for it
    /// cannot be had.
    pub fn volume_abandoned(&mut self)
        ensures
            *final(self) == (FatFs { state: retrieval_ended(old(self).state), ..*old(self) }),
    {
        if let Some(CurrentAsyncOperation::GetVolume { .. }) = self.state {
            self.state = Some(CurrentAsyncOperation::Idle);
        }
    }

    /// Open a directory.
    ///
    /// You can then read the directory entries and open the files in it.
    pub fn open_root_dir(&mut self, volume: &Volume) -> (result: Result<Directory, Error>)
        ensures
            result == root_dir_outcome(old(self).open_dirs@, volume.idx),
            final(self).open_dirs@ == (if result is Ok {
                old(self).open_dirs@.update(
                    first_free(old(self).open_dirs@, 0),
                    (volume.idx, Cluster(Cluster::ROOT_DIR)),
                )
            } else {
                old(self).open_dirs@
            }),
            final(self).open_files == old(self).open_files,
            final(self).state == old(self).state,
            final(self).buffer == old(self).buffer,
            result is Err ==> *final(self) == *old(self),
    {
        // Check the root dir isn't open
        if find_row(
            self.open_dirs.as_slice(),
            (volume.idx, Cluster(Cluster::ROOT_DIR)),
        ).is_some() {
            return Err(Error::DirAlreadyOpen);
        }
        // Find a free directory entry
        match first_free_row(self.open_dirs.as_slice()) {
            Some(row) => {
                // Remember this open directory
                self.open_dirs[row] = (volume.idx, Cluster(Cluster::ROOT_DIR));
                Ok(Directory { cluster: Cluster(Cluster::ROOT_DIR), entry: None })
            },
            None => Err(Error::TooManyOpenDirs),
        }
    }

    /// Checks that there is room in the table of open directories. A search
    /// for the entry of a directory is worth its while only then.
    pub fn check_open_dirs_row(&self) -> (result: Result<usize, Error>)
        ensures
            match result {
                Ok(row) => {
                    &&& row == last_free(self.open_dirs@)
                    &&& row < MAX_DIRS
                    &&& is_free(self.open_dirs@[row as int])
                },
                Err(e) => {
                    &&& e == Error::TooManyOpenDirs
                    &&& last_free(self.open_dirs@) == -1
                    &&& forall|i: int| 0 <= i < MAX_DIRS ==> !is_free(#[trigger] self.open_dirs@[i])
                },
            },
    {
        proof {
            lemma_last_free(self.open_dirs@);
        }
        match last_free_row(self.open_dirs.as_slice()) {
            Some(row) => Ok(row),
            None => Err(Error::TooManyOpenDirs),
        }
    }

    /// Open a directory, given what the search for its entry found.
    ///
    /// You can then read the directory entries and open the files in it.
    pub fn open_dir(&mut self, volume: &Volume, found: Result<DirEntry, Error>) -> (result: Result<
        Directory,
        Error,
    >)
        ensures
            result == dir_outcome(old(self).open_dirs@, volume.idx, found),
            final(self).open_dirs@ == (match result {
                Ok(dir) => old(self).open_dirs@.update(
                    last_free(old(self).open_dirs@),
                    (volume.idx, dir.cluster),
                ),
                Err(_) => old(self).open_dirs@,
            }),
            final(self).open_files == old(self).open_files,
            final(self).state == old(self).state,
            final(self).buffer == old(self).buffer,
            result is Err ==> *final(self) == *old(self),
    {
        proof {
            lemma_last_free(self.open_dirs@);
        }
        let row: usize = match self.check_open_dirs_row() {
            Ok(row) => row,
            Err(e) => {
                return Err(e);
            },
        };
        let dir_entry = match found {
            Ok(entry) => entry,
            Err(e) => {
                return Err(e);
            },
        };
        if !dir_entry.attributes.is_directory() {
            return Err(Error::OpenedDirAsFile);
        }
        // Check it's not already open
        if find_row(self.open_dirs.as_slice(), (volume.idx, dir_entry.cluster)).is_some() {
            return Err(Error::DirAlreadyOpen);
        }
        // Remember this open directory
        self.open_dirs[row] = (volume.idx, dir_entry.cluster);
        Ok(Directory { cluster: dir_entry.cluster, entry: Some(dir_entry) })
    }

    /// Close a directory. You cannot perform operations on an open directory
    /// and so must close it if you want to do something with it.
    pub fn close_dir(&mut self, volume: &Volume, dir: Directory)
        ensures
            final(self).open_dirs@ == freed(old(self).open_dirs@, (volume.idx, dir.cluster)),
            final(self).open_files == old(self).open_files,
            final(self).state == old(self).state,
            final(self).buffer == old(self).buffer,
    {
        if let Some(row) = find_row(self.open_dirs.as_slice(), (volume.idx, dir.cluster)) {
            self.open_dirs[row] = (volume.idx, Cluster(Cluster::INVALID));
        }
    }

    /// Get the next entry in open_files list
    pub fn get_open_files_row(&self) -> (result: Result<usize, Error>)
        ensures
            match result {
                Ok(row) => {
                    &&& row == last_free(self.open_files@)
                    &&& row < MAX_FILES
                    &&& is_free(self.open_files@[row as int])
                },
                Err(e) => {
                    &&& e == Error::TooManyOpenFiles
                    &&& last_free(self.open_files@) == -1
                    &&& forall|i: int| 0 <= i < MAX_FILES ==> !is_free(#[trigger] self.open_files@[i])
                },
            },
    {
        proof {
            lemma_last_free(self.open_files@);
        }
        match last_free_row(self.open_files.as_slice()) {
            Some(row) => Ok(row),
            None => Err(Error::TooManyOpenFiles),
        }
    }

    /// Open a file from DirEntry. This is obtained by reading a directory. A
    /// file can only be opened once.
    pub fn open_dir_entry(&mut self, volume: &Volume, dir_entry: DirEntry, mode: Mode) -> (result:
        Result<OpenStep, Error>)
        ensures
            result == entry_outcome(old(self).open_files@, volume.idx, dir_entry, mode),
            final(self).open_files@ == files_after(old(self).open_files@, volume.idx, result),
            final(self).open_dirs == old(self).open_dirs,
            final(self).state == old(self).state,
            final(self).buffer == old(self).buffer,
            !(result matches Ok(OpenStep::Opened(_))) ==> *final(self) == *old(self),
    {
        proof {
            lemma_last_free(self.open_files@);
        }
        let row: usize = match self.get_open_files_row() {
            Ok(row) => row,
            Err(e) => {
                return Err(e);
            },
        };
        // Check it's not already open
        if find_row(self.open_files.as_slice(), (volume.idx, dir_entry.cluster)).is_some() {
            return Err(Error::FileAlreadyOpen);
        }
        if dir_entry.attributes.is_directory() {
            return Err(Error::OpenedDirAsFile);
        }
        let read_only = match mode {
            Mode::ReadOnly => true,
            _ => false,
        };
        if dir_entry.attributes.is_read_only() && !read_only {
            return Err(Error::ReadOnly);
        }
        let solved = solve_mode_variant(mode, true);
        let file = match solved {
            Mode::ReadOnly => File::open(dir_entry, solved),
            Mode::ReadWriteAppend => {
                let mut file = File::open(dir_entry, solved);
                file.seek_to_end();
                file
            },
            Mode::ReadWriteTruncate => {
                return Ok(OpenStep::Truncate(File::open(dir_entry, solved)));
            },
            _ => {
                return Err(Error::Unsupported);
            },
        };
        // Remember this open file
        self.open_files[row] = (volume.idx, file.starting_cluster);
        Ok(OpenStep::Opened(file))
    }

    /// Open a file by its name, given what the search for its entry found. A
    /// file can only be opened once.
    pub fn open_file_in_dir(
        &mut self,
        volume: &Volume,
        found: Result<DirEntry, Error>,
        name: &[u8],
        mode: Mode,
    ) -> (result: Result<OpenStep, Error>)
        ensures
            is_file_outcome(old(self).open_files@, volume.idx, found, name@, mode, result),
            final(self).open_files@ == files_after(old(self).open_files@, volume.idx, result),
            final(self).open_dirs == old(self).open_dirs,
            final(self).state == old(self).state,
            final(self).buffer == old(self).buffer,
            !(result matches Ok(OpenStep::Opened(_))) ==> *final(self) == *old(self),
    {
        proof {
            lemma_last_free(self.open_files@);
        }
        if let Err(e) = self.get_open_files_row() {
            return Err(e);
        }
        match found {
            Ok(entry) => {
                let solved = solve_mode_variant(mode, true);
                match solved {
                    Mode::ReadWriteCreate => Err(Error::FileAlreadyExists),
                    // If 2 files are in the same cluster this will cause an error when
                    // opening a file for a first time in a different than `ReadWriteCreate` mode.
                    _ => self.open_dir_entry(volume, entry, solved),
                }
            },
            Err(_) => match solve_mode_variant(mode, false) {
                Mode::ReadWriteCreate => {
                    match ShortFileName::create_from_buffer(name) {
                        Ok(file_name) => Ok(
                            OpenStep::Create(file_name, Attributes::create_from_fat(0)),
                        ),
                        Err(_) => Err(Error::FilenameError),
                    }
                },
                _ => Err(Error::FileNotFound),
            },
        }
    }

    /// Goes on with the opening of a file whose cluster chain was to be
    /// truncated. The file that results is empty; its entry is to be written
    /// to the disk, and the outcome handed to `entry_stored`.
    pub fn chain_truncated(file: File, truncated: Result<(), Error>) -> (result: Result<
        File,
        Error,
    >)
        ensures
            match truncated {
                Ok(_) => result == Ok::<File, Error>(
                    File { length: 0, entry: DirEntry { size: 0, ..file.entry }, ..file },
                ),
                Err(e) => result == Err::<File, Error>(e),
            },
    {
        match truncated {
            Ok(_) => {
                let mut file = file;
                file.update_length(0);
                Ok(file)
            },
            Err(e) => Err(e),
        }
    }

    /// Ends the opening of a file whose entry was to be written to the disk.
    pub fn entry_stored(&mut self, volume: &Volume, file: File, stored: Result<(), Error>) -> (
        result: Result<File, Error>)
        ensures
            result == (match stored {
                Err(e) => Err(e),
                Ok(_) => if last_free(old(self).open_files@) < 0 {
                    Err(Error::TooManyOpenFiles)
                } else {
                    Ok(file)
                },
            }),
            final(self).open_files@ == (if result is Ok {
                old(self).open_files@.update(
                    last_free(old(self).open_files@),
                    (volume.idx, file.starting_cluster),
                )
            } else {
                old(self).open_files@
            }),
            final(self).open_dirs == old(self).open_dirs,
            final(self).state == old(self).state,
            final(self).buffer == old(self).buffer,
            result is Err ==> *final(self) == *old(self),
    {
        proof {
            lemma_last_free(self.open_files@);
        }
        if let Err(e) = stored {
            return Err(e);
        }
        match self.get_open_files_row() {
            Ok(row) => {
                // Remember this open file
                self.open_files[row] = (volume.idx, file.starting_cluster);
                Ok(file)
            },
            Err(e) => Err(e),
        }
    }

    /// Ends the opening of a file whose directory entry was to be created.
    pub fn entry_created(&mut self, volume: &Volume, created: Result<DirEntry, Error>) -> (result:
        Result<File, Error>)
        ensures
            result == (match created {
                Err(e) => Err(e),
                Ok(entry) => if last_free(old(self).open_files@) < 0 {
                    Err(Error::TooManyOpenFiles)
                } else {
                    Ok(File::opened(entry, Mode::ReadWriteCreate))
                },
            }),
            final(self).open_files@ == (match result {
                Ok(file) => old(self).open_files@.update(
                    last_free(old(self).open_files@),
                    (volume.idx, file.starting_cluster),
                ),
                Err(_) => old(self).open_files@,
            }),
            final(self).open_dirs == old(self).open_dirs,
            final(self).state == old(self).state,
            final(self).buffer == old(self).buffer,
            result is Err ==> *final(self) == *old(self),
    {
        match created {
            Ok(entry) => self.entry_stored(
                volume,
                File::open(entry, Mode::ReadWriteCreate),
                Ok(()),
            ),
            Err(e) => Err(e),
        }
    }

    /// Decides whether a closed file may be deleted, given what the search for
    /// its entry found. The entry is to be deleted if so.
    pub fn delete_file_in_dir(&self, volume: &Volume, found: Result<DirEntry, Error>) -> (result:
        Result<(), Error>)
        ensures
            result == (match found {
                Err(e) => Err(e),
                Ok(entry) => if entry.attributes.spec_is_directory() {
                    Err(Error::DeleteDirAsFile)
                } else if self.open_files@.contains((volume.idx, entry.cluster)) {
                    Err(Error::FileIsOpen)
                } else {
                    Ok(())
                },
            }),
    {
        let dir_entry = match found {
            Ok(entry) => entry,
            Err(e) => {
                return Err(e);
            },
        };
        if dir_entry.attributes.is_directory() {
            return Err(Error::DeleteDirAsFile);
        }
        if find_row(self.open_files.as_slice(), (volume.idx, dir_entry.cluster)).is_some() {
            return Err(Error::FileIsOpen);
        }
        Ok(())
    }

    /// Close a file.
    pub fn close_file(&mut self, volume: &Volume, file: File) -> (result: Result<(), Error>)
        ensures
            result is Ok,
            final(self).open_files@ == freed(
                old(self).open_files@,
                (volume.idx, file.starting_cluster),
            ),
            final(self).open_dirs == old(self).open_dirs,
            final(self).state == old(self).state,
            final(self).buffer == old(self).buffer,
    {
        if let Some(row) = find_row(
            self.open_files.as_slice(),
            (volume.idx, file.starting_cluster),
        ) {
            self.open_files[row] = (volume.idx, Cluster(Cluster::INVALID));
        }
        Ok(())
    }

    /// Check if any files or folders are open.
    pub fn has_open_handles(&self) -> (open: bool)
        ensures
            open == ((exists|i: int|
                0 <= i < MAX_DIRS && !is_free(#[trigger] self.open_dirs@[i])) || (exists|i: int|
                0 <= i < MAX_FILES && !is_free(#[trigger] self.open_files@[i]))),
    {
        any_in_use(self.open_dirs.as_slice()) || any_in_use(self.open_files.as_slice())
    }

    /// Forgets everything that is open.
    pub fn reset(&mut self)
        ensures
            final(self).state == old(self).state,
            final(self).buffer == old(self).buffer,
            forall|i: int|
                0 <= i < MAX_DIRS ==> #[trigger] final(self).open_dirs@[i] == free_row(),
            forall|i: int|
                0 <= i < MAX_FILES ==> #[trigger] final(self).open_files@[i] == free_row(),
    {
        self.open_dirs = [(VolumeIdx(0), Cluster(Cluster::INVALID)); MAX_DIRS];
        self.open_files = [(VolumeIdx(0), Cluster(Cluster::INVALID)); MAX_FILES];
    }
}

/// The retrieval of a volume: the client is told of the volume if the Master
/// Boot Record lists it and its partition was examined with success, and of
/// the reason if not; either way the controller is idle again at the end. The
/// index of the volume fits in 32 bits.
pub proof fn law_volume_retrieval(
    volume_idx: VolumeIdx,
    block: Seq<u8>,
    parsed: Result<VolumeType, Error>,
)
    requires
        volume_idx.0 <= u32::MAX,
    ensures
        ({
            let idle = Some(CurrentAsyncOperation::Idle);
            let (asked, request) = volume_requested(idle, volume_idx);
            let (arrived, outcome) = block_arrived(asked, block);
            let (examined, report) = volume_examined(arrived, parsed);
            &&& request == Ok::<BlockIdx, ErrorCode>(BlockIdx(0))
            &&& match find_partition(block, volume_idx.0 as int) {
                Err(e) => arrived == idle && outcome == ReadOutcome::Failed(e),
                Ok(partition) => {
                    &&& outcome == ReadOutcome::ParseVolume(partition)
                    &&& examined == idle
                    &&& match parsed {
                        Ok(volume_type) => report == Some(
                            Ok::<Volume, Error>(Volume { idx: volume_idx, volume_type }),
                        ),
                        Err(e) => report == Some(Err::<Volume, Error>(e)),
                    }
                },
            }
        }),
{
}

/// While a volume is retrieved no other retrieval can start.
pub proof fn law_one_retrieval_at_a_time(first: VolumeIdx, second: VolumeIdx)
    ensures
        ({
            let (asked, _) = volume_requested(Some(CurrentAsyncOperation::Idle), first);
            volume_requested(asked, second) == (asked, Err::<BlockIdx, ErrorCode>(ErrorCode::BUSY))
        }),
{
}

/// What the Master Boot Record says about a partition rests on the entry of
/// that partition and on the footer alone.
pub proof fn law_partitions_are_independent(block: Seq<u8>, other: Seq<u8>, idx: int)
    requires
        block.len() == 512,
        other.len() == 512,
        0 <= idx < 4,
        partition_entry(block, idx) == partition_entry(other, idx),
        block.subrange(510, 512) == other.subrange(510, 512),
    ensures
        find_partition(block, idx) == find_partition(other, idx),
{
}

/// A directory that was opened is recorded once, and cannot be opened again
/// before it was closed.
pub proof fn law_directory_opens_once(
    rows: Seq<(VolumeIdx, Cluster)>,
    idx: VolumeIdx,
    entry: DirEntry,
)
    requires
        no_item_twice(rows),
        entry.cluster != Cluster(Cluster::INVALID),
        dir_outcome(rows, idx, Ok(entry)) is Ok,
    ensures
        ({
            let item = (idx, entry.cluster);
            let opened = rows.update(last_free(rows), item);
            &&& no_item_twice(opened)
            &&& is_open(opened, item)
            &&& dir_outcome(opened, idx, Ok(entry)) is Err
            &&& dir_outcome(freed(opened, item), idx, Ok(entry)) == dir_outcome(
                rows,
                idx,
                Ok(entry),
            )
        }),
{
    let item = (idx, entry.cluster);
    let row = last_free(rows);
    let opened = rows.update(row, item);
    lemma_last_free(rows);
    crate::handles::law_opening_keeps_items_unique(rows, row, item);
    assert(opened[row] == item);
    crate::handles::law_closing(opened, item, item);
    lemma_row_of(opened, item, 0);
    let closed = freed(opened, item);
    lemma_last_free(closed);
    assert(is_free(closed[row_of(opened, item, 0)]));
    assert(!closed.contains(item));
}

/// A root directory that is open cannot be opened again, wherever it is
/// recorded; one that was opened is recorded once, and can be opened again after
/// it was closed.
pub proof fn law_root_directory_opens_once(rows: Seq<(VolumeIdx, Cluster)>, idx: VolumeIdx)
    requires
        no_item_twice(rows),
    ensures
        is_open(rows, (idx, Cluster(Cluster::ROOT_DIR))) ==> root_dir_outcome(rows, idx) == Err::<
            Directory,
            Error,
        >(Error::DirAlreadyOpen),
        root_dir_outcome(rows, idx) is Ok ==> ({
            let item = (idx, Cluster(Cluster::ROOT_DIR));
            let opened = rows.update(first_free(rows, 0), item);
            &&& no_item_twice(opened)
            &&& is_open(opened, item)
            &&& root_dir_outcome(opened, idx) == Err::<Directory, Error>(Error::DirAlreadyOpen)
            &&& root_dir_outcome(freed(opened, item), idx) is Ok
        }),
{
    if root_dir_outcome(rows, idx) is Ok {
        let item = (idx, Cluster(Cluster::ROOT_DIR));
        let row = first_free(rows, 0);
        let opened = rows.update(row, item);
        lemma_first_free(rows, 0);
        crate::handles::law_opening_keeps_items_unique(rows, row, item);
        assert(opened[row] == item);
        crate::handles::law_closing(opened, item, item);
        lemma_row_of(opened, item, 0);
        let closed = freed(opened, item);
        lemma_first_free(closed, 0);
        assert(is_free(closed[row_of(opened, item, 0)]));
    }
}

/// A file that was opened is recorded once, cannot be opened again and cannot
/// be deleted before it was closed.
pub proof fn law_file_opens_once(
    rows: Seq<(VolumeIdx, Cluster)>,
    idx: VolumeIdx,
    entry: DirEntry,
    mode: Mode,
    second_mode: Mode,
)
    requires
        no_item_twice(rows),
        entry.cluster != Cluster(Cluster::INVALID),
        entry_outcome(rows, idx, entry, mode) is Ok,
    ensures
        ({
            let item = (idx, entry.cluster);
            let opened = rows.update(last_free(rows), item);
            &&& no_item_twice(opened)
            &&& is_open(opened, item)
            &&& opened.contains(item)
            &&& entry_outcome(opened, idx, entry, second_mode) == Err::<OpenStep, Error>(
                if last_free(opened) < 0 {
                    Error::TooManyOpenFiles
                } else {
                    Error::FileAlreadyOpen
                },
            )
            &&& !freed(opened, item).contains(item)
            &&& last_free(freed(opened, item)) >= 0
        }),
{
    let item = (idx, entry.cluster);
    let row = last_free(rows);
    let opened = rows.update(row, item);
    lemma_last_free(rows);
    crate::handles::law_opening_keeps_items_unique(rows, row, item);
    assert(opened[row] == item);
    crate::handles::law_closing(opened, item, item);
    lemma_row_of(opened, item, 0);
    let closed = freed(opened, item);
    lemma_last_free(closed);
    assert(is_free(closed[row_of(opened, item, 0)]));
}

/// A read-only file opens for reading alone.
pub proof fn law_read_only_files_are_not_written(
    rows: Seq<(VolumeIdx, Cluster)>,
    idx: VolumeIdx,
    entry: DirEntry,
    mode: Mode,
)
    requires
        entry.attributes.spec_is_read_only(),
        entry_outcome(rows, idx, entry, mode) is Ok,
    ensures
        mode == Mode::ReadOnly,
        entry_outcome(rows, idx, entry, mode) == Ok::<OpenStep, Error>(
            OpenStep::Opened(File::opened(entry, Mode::ReadOnly)),
        ),
{
}

} // verus!
