//! Provides a FAT32/FAT16 filesystem driver.
//!
//! Currently the driver can only serve one process at a time. It decides what
//! a system call comes to; whoever runs it searches and changes the directories
//! on the disk, and hands back the outcome.
use crate::data_structures::{BlockIdx, Error, Volume, VolumeIdx};
use crate::error_code::ErrorCode;
use crate::fatfs::{
    dir_outcome, free_row, is_file_outcome, retrieval_ended, root_dir_outcome, volume_requested, FatFs, OpenStep,
};
use crate::filename::ShortFileName;
use crate::files::{Attributes, Cluster, DirEntry, Directory, File, Mode};
use crate::handles::{first_free, freed, last_free};
use vstd::prelude::*;

verus! {

/// Inits the driver to "work for" some process.
/// Should also pass the volume identifier that the process wants to use.
/// Volume identifier should be 0, 1, 2, or 3. Only 4 partitions are supported.
pub const CMD_INIT: usize = 0;

/// Opens the root directory.
pub const CMD_OPEN_ROOT_DIR: usize = 1;

/// Open a directory. Userspace should be cognisant of the open-dir limit.
pub const CMD_OPEN_DIR: usize = 2;

/// Close a directory.
pub const CMD_CLOSE_DIR: usize = 3;

/// Opens a file in the specified directory.
pub const CMD_OPEN_FILE: usize = 4;

/// Closes a file.
pub const CMD_CLOSE_FILE: usize = 5;

/// Tells the driver that the process is done using the driver.
/// Essentially un-reserves it.
pub const CMD_DONE: usize = 8;

/// How many directories can be open.
pub const MAX_DIRS: usize = 8;

/// How many files can be open.
pub const MAX_FILES: usize = 8;

/// Identifies a process.
#[derive(Copy, Clone, Debug, PartialEq, Eq, Structural)]
pub struct ProcessId(pub usize);

/// What a system call returns to userspace.
#[derive(Copy, Clone, Debug, PartialEq, Eq, Structural)]
pub enum CommandReturn {
    /// Success.
    Success,
    /// Success, with a number.
    SuccessU32(u32),
    /// Failure.
    Failure(ErrorCode),
}

/// The file name that a process shares with the driver.
#[derive(Debug, PartialEq)]
pub enum SharedName {
    /// The process has no room for what the driver keeps about it.
    NoGrant,
    /// The process has not shared a buffer.
    NotShared,
    /// What is in the buffer.
    Shared(Vec<u8>),
}

/// A directory entry to search for. The name is in the local file name buffer.
#[derive(Copy, Clone, Debug, PartialEq, Eq, Structural)]
pub struct DirSearch {
    /// The descriptor of the directory to search.
    pub parent_dir_id: usize,
    /// The descriptor for the directory that is opened.
    pub new_dir_id: usize,
}

/// A directory entry to search for. The name is in the local file name buffer.
#[derive(Copy, Clone, Debug, PartialEq, Eq, Structural)]
pub struct FileSearch {
    /// The descriptor of the directory to search.
    pub parent_dir_id: usize,
    /// The descriptor for the file that is opened.
    pub new_file_id: usize,
    /// How to open the file.
    pub mode: Mode,
}

/// How the opening of a file goes on.
pub enum FileStep {
    /// The file is open, with this descriptor.
    Opened(u32),
    /// The cluster chain of the file is to be truncated, and the outcome handed
    /// to `FatFsDriver::file_truncated`.
    Truncate(File),
    /// A directory entry with this name and these attributes is to be written,
    /// and the outcome handed to `FatFsDriver::file_created`.
    Create(ShortFileName, Attributes),
}

/// What a system call comes to.
#[derive(Copy, Clone, Debug, PartialEq, Eq, Structural)]
pub enum CommandStep {
    /// It is over.
    Return(CommandReturn),
    /// This block is to be read and handed to the controller, and what the
    /// controller then reports to `FatFsDriver::init_done`.
    Retrieve(BlockIdx),
    /// The entry is to be searched for, and the outcome handed to
    /// `FatFsDriver::opendir_found`.
    SearchDir(DirSearch),
    /// The entry is to be searched for, and the outcome handed to
    /// `FatFsDriver::file_found`.
    SearchFile(FileSearch),
}

/// Struct that stores the state of the Fat32 driver.
/// Stores information about the current process that the driver is serving.
/// As well as state of the underlying device that the driver reading/writing to.
pub struct FatFsDriver {
    /// The controller of the file system.
    pub fatfs: Option<FatFs<MAX_DIRS, MAX_FILES>>,
    /// The local file name buffer.
    pub filename_buffer: Option<Vec<u8>>,
    /// The current volume (partition) the driver is working in.
    pub volume: Option<Volume>,
    /// Directory Descriptor table. Every directory opened by the user process
    /// has a corresponding int ID.
    pub directories: Option<[Option<Directory>; MAX_DIRS]>,
    /// File Descriptor table. Every file opened by the user process
    /// has a corresponding int ID.
    pub files: Option<[Option<File>; MAX_FILES]>,
    /// The process that reserved the driver.
    pub current_process: Option<ProcessId>,
}

/// The lowest descriptor from `from` on that is not taken, or the length of
/// the table if there is none.
pub open spec fn first_none<T>(table: Seq<Option<T>>, from: int) -> int
    decreases table.len() - from,
{
    if from >= table.len() || table[from] is None {
        from
    } else {
        first_none(table, from + 1)
    }
}

/// Whether a descriptor stands for something that is open.
pub open spec fn is_taken<T>(table: Seq<Option<T>>, id: int) -> bool {
    0 <= id < table.len() && table[id] is Some
}

/// The local file name buffer after a name was copied into it. What the name
/// does not reach stays as it was, and what does not fit is left out.
pub open spec fn name_copied(buffer: Seq<u8>, data: Seq<u8>) -> Seq<u8> {
    Seq::new(
        buffer.len(),
        |i: int|
            if i < data.len() {
                data[i]
            } else {
                buffer[i]
            },
    )
}

/// The mode that a number stands for.
pub open spec fn mode_of(mode: usize) -> Option<Mode> {
    if mode == 0 {
        Some(Mode::ReadOnly)
    } else if mode == 1 {
        Some(Mode::ReadWriteAppend)
    } else if mode == 2 {
        Some(Mode::ReadWriteTruncate)
    } else if mode == 3 {
        Some(Mode::ReadWriteCreate)
    } else if mode == 4 {
        Some(Mode::ReadWriteCreateOrTruncate)
    } else if mode == 5 {
        Some(Mode::ReadWriteCreateOrAppend)
    } else {
        None
    }
}

/// Whether the process making the syscall has the ability to do so.
pub open spec fn reservation(driver: FatFsDriver, process_id: ProcessId) -> Result<(), ErrorCode> {
    match driver.current_process {
        None => Err(ErrorCode::RESERVE),
        Some(id) => if id == process_id {
            Ok(())
        } else {
            Err(ErrorCode::BUSY)
        },
    }
}

/// Whether nothing but the descriptors of directories, and the table of open
/// directories in the controller, is different after a step; these are as
/// given.
pub open spec fn dirs_changed(
    before: FatFsDriver,
    after: FatFsDriver,
    table: Seq<Option<Directory>>,
    rows: Seq<(VolumeIdx, Cluster)>,
) -> bool {
    &&& after == FatFsDriver { directories: after.directories, fatfs: after.fatfs, ..before }
    &&& after.directories matches Some(dirs)
    &&& dirs@ == table
    &&& before.fatfs matches Some(old_fs)
    &&& after.fatfs matches Some(fs)
    &&& fs.open_dirs@ == rows
    &&& fs == FatFs { open_dirs: fs.open_dirs, ..old_fs }
}

/// Whether nothing but the descriptors of files, and the table of open files
/// in the controller, is different after a step; these are as given.
pub open spec fn files_changed(
    before: FatFsDriver,
    after: FatFsDriver,
    table: Seq<Option<File>>,
    rows: Seq<(VolumeIdx, Cluster)>,
) -> bool {
    &&& after == FatFsDriver { files: after.files, fatfs: after.fatfs, ..before }
    &&& after.files matches Some(files)
    &&& files@ == table
    &&& before.fatfs matches Some(old_fs)
    &&& after.fatfs matches Some(fs)
    &&& fs.open_files@ == rows
    &&& fs == FatFs { open_files: fs.open_files, ..old_fs }
}

/// Whether `after` and `result` are what the start of the INIT syscall comes
/// to.
pub open spec fn init_begun(
    before: FatFsDriver,
    process_id: ProcessId,
    partition_index: usize,
    after: FatFsDriver,
    result: Result<BlockIdx, ErrorCode>,
) -> bool {
    match reservation(before, process_id) {
        Ok(_) => after == before && result == Err::<BlockIdx, ErrorCode>(ErrorCode::ALREADY),
        Err(ErrorCode::RESERVE) => match before.fatfs {
            None => after == before && result == Err::<BlockIdx, ErrorCode>(ErrorCode::FAIL),
            Some(old_fs) => {
                let (state, request) = volume_requested(
                    old_fs.state,
                    VolumeIdx(partition_index),
                );
                &&& after == FatFsDriver { fatfs: Some(FatFs { state, ..old_fs }), ..before }
                &&& result == match request {
                    Ok(block) => Ok(block),
                    Err(_) => Err(ErrorCode::FAIL),
                }
            },
        },
        Err(code) => after == before && result == Err::<BlockIdx, ErrorCode>(code),
    }
}

/// The driver after the INIT syscall has failed: the controller does not wait
/// for a volume.
pub open spec fn init_failed(driver: FatFsDriver) -> FatFsDriver {
    FatFsDriver {
        fatfs: match driver.fatfs {
            Some(fs) => Some(FatFs { state: retrieval_ended(fs.state), ..fs }),
            None => None,
        },
        ..driver
    }
}

/// Whether `after` and `result` are what opening the root directory comes to.
pub open spec fn root_dir_opened(
    before: FatFsDriver,
    after: FatFsDriver,
    result: Result<u32, ErrorCode>,
) -> bool {
    match (before.directories, before.volume, before.fatfs) {
        (Some(dirs), _, _) if dirs@[0] is Some => {
            after == before && result == Err::<u32, ErrorCode>(ErrorCode::ALREADY)
        },
        (Some(dirs), Some(volume), Some(fs)) => {
            match root_dir_outcome(fs.open_dirs@, volume.idx) {
                Ok(root) => {
                    &&& dirs_changed(
                        before,
                        after,
                        dirs@.update(0, Some(root)),
                        fs.open_dirs@.update(
                            first_free(fs.open_dirs@, 0),
                            (volume.idx, Cluster(Cluster::ROOT_DIR)),
                        ),
                    )
                    &&& result == Ok::<u32, ErrorCode>(0)
                },
                Err(_) => after == before && result == Err::<u32, ErrorCode>(ErrorCode::FAIL),
            }
        },
        _ => after == before && result == Err::<u32, ErrorCode>(ErrorCode::FAIL),
    }
}

/// The descriptor that the next directory gets, if the syscall has got all it
/// needs; the error if not.
pub open spec fn new_dir_descriptor(
    driver: FatFsDriver,
    parent_dir_id: usize,
    name: SharedName,
) -> Result<usize, ErrorCode> {
    match (driver.directories, driver.fatfs, driver.volume, driver.filename_buffer) {
        (Some(dirs), Some(_), Some(_), Some(_)) => match name {
            SharedName::NoGrant => Err(ErrorCode::RESERVE),
            SharedName::NotShared => Err(ErrorCode::FAIL),
            SharedName::Shared(_) => if !is_taken(dirs@, parent_dir_id as int) {
                Err(ErrorCode::INVAL)
            } else if first_none(dirs@, 0) == dirs@.len() {
                Err(ErrorCode::NOMEM)
            } else {
                Ok(first_none(dirs@, 0) as usize)
            },
        },
        _ => Err(ErrorCode::FAIL),
    }
}

/// Whether `after` is the driver with a name in the local file name buffer.
pub open spec fn name_taken(before: FatFsDriver, name: SharedName, after: FatFsDriver) -> bool {
    &&& after == FatFsDriver { filename_buffer: after.filename_buffer, ..before }
    &&& before.filename_buffer matches Some(old_buffer)
    &&& after.filename_buffer matches Some(buffer)
    &&& name matches SharedName::Shared(data)
    &&& buffer@ == name_copied(old_buffer@, data@)
}

/// Whether `after` and `result` are what the start of the OPEN_DIR syscall
/// comes to.
pub open spec fn opendir_begun(
    before: FatFsDriver,
    parent_dir_id: usize,
    name: SharedName,
    after: FatFsDriver,
    result: Result<DirSearch, ErrorCode>,
) -> bool {
    match new_dir_descriptor(before, parent_dir_id, name) {
        Ok(new_dir_id) => {
            &&& name_taken(before, name, after)
            &&& result == Ok::<DirSearch, ErrorCode>(DirSearch { parent_dir_id, new_dir_id })
        },
        Err(code) => after == before && result == Err::<DirSearch, ErrorCode>(code),
    }
}

/// Whether the driver waits for the outcome of a search for a directory.
pub open spec fn awaits_dir(driver: FatFsDriver, search: DirSearch) -> bool {
    &&& driver.fatfs is Some
    &&& driver.volume is Some
    &&& driver.directories matches Some(dirs)
    &&& search.new_dir_id < MAX_DIRS
    &&& dirs@[search.new_dir_id as int] is None
}

/// Whether `after` and `result` are what the OPEN_DIR syscall comes to, given
/// what the search found.
pub open spec fn dir_opened(
    before: FatFsDriver,
    search: DirSearch,
    found: Result<DirEntry, Error>,
    after: FatFsDriver,
    result: Result<u32, ErrorCode>,
) -> bool {
    let rows = before.fatfs->0.open_dirs@;
    let idx = before.volume->0.idx;
    match dir_outcome(rows, idx, found) {
        Ok(dir) => {
            &&& dirs_changed(
                before,
                after,
                before.directories->0@.update(search.new_dir_id as int, Some(dir)),
                rows.update(last_free(rows), (idx, dir.cluster)),
            )
            &&& result == Ok::<u32, ErrorCode>(search.new_dir_id as u32)
        },
        Err(_) => after == before && result == Err::<u32, ErrorCode>(ErrorCode::INVAL),
    }
}

/// Whether `after` and `result` are what the CLOSE_DIR syscall comes to.
pub open spec fn dir_closed(
    before: FatFsDriver,
    dir_id: usize,
    after: FatFsDriver,
    result: Result<(), ErrorCode>,
) -> bool {
    match (before.directories, before.fatfs, before.volume) {
        (Some(dirs), Some(fs), Some(volume)) => if dir_id >= MAX_DIRS {
            after == before && result == Err::<(), ErrorCode>(ErrorCode::INVAL)
        } else {
            match dirs@[dir_id as int] {
                Some(dir) => {
                    &&& dirs_changed(
                        before,
                        after,
                        dirs@.update(dir_id as int, None),
                        freed(fs.open_dirs@, (volume.idx, dir.cluster)),
                    )
                    &&& result is Ok
                },
                None => after == before && result == Err::<(), ErrorCode>(ErrorCode::ALREADY),
            }
        },
        _ => after == before && result == Err::<(), ErrorCode>(ErrorCode::FAIL),
    }
}

/// The descriptor that the next file gets, if the syscall has got all it
/// needs; the error if not.
pub open spec fn new_file_descriptor(
    driver: FatFsDriver,
    parent_dir_id: usize,
    name: SharedName,
) -> Result<usize, ErrorCode> {
    match (driver.directories, driver.files, driver.fatfs) {
        (Some(dirs), Some(files), Some(_)) => if driver.volume is None
            || driver.filename_buffer is None {
            Err(ErrorCode::FAIL)
        } else {
            match name {
                SharedName::NoGrant => Err(ErrorCode::RESERVE),
                SharedName::NotShared => Err(ErrorCode::FAIL),
                SharedName::Shared(_) => if !is_taken(dirs@, parent_dir_id as int) {
                    Err(ErrorCode::INVAL)
                } else if first_none(files@, 0) == files@.len() {
                    Err(ErrorCode::NOMEM)
                } else {
                    Ok(first_none(files@, 0) as usize)
                },
            }
        },
        _ => Err(ErrorCode::INVAL),
    }
}

/// Whether `after` and `result` are what the start of the OPEN_FILE syscall
/// comes to. A mode that is none is found out once the name was copied.
pub open spec fn open_file_begun(
    before: FatFsDriver,
    parent_dir_id: usize,
    mode: usize,
    name: SharedName,
    after: FatFsDriver,
    result: Result<FileSearch, ErrorCode>,
) -> bool {
    match new_file_descriptor(before, parent_dir_id, name) {
        Ok(new_file_id) => {
            &&& name_taken(before, name, after)
            &&& result == match mode_of(mode) {
                Some(mode) => Ok(FileSearch { parent_dir_id, new_file_id, mode }),
                None => Err(ErrorCode::INVAL),
            }
        },
        Err(code) => after == before && result == Err::<FileSearch, ErrorCode>(code),
    }
}

/// Whether the driver waits for the outcome of something that opens a file.
pub open spec fn awaits_file(driver: FatFsDriver, search: FileSearch) -> bool {
    &&& driver.fatfs is Some
    &&& driver.volume is Some
    &&& driver.filename_buffer is Some
    &&& driver.files matches Some(files)
    &&& search.new_file_id < MAX_FILES
    &&& files@[search.new_file_id as int] is None
}

/// Whether `after` is the driver with a file at the descriptor that was chosen
/// for it, and in the table of open files of the controller.
pub open spec fn file_recorded(
    before: FatFsDriver,
    search: FileSearch,
    file: File,
    after: FatFsDriver,
) -> bool {
    let rows = before.fatfs->0.open_files@;
    files_changed(
        before,
        after,
        before.files->0@.update(search.new_file_id as int, Some(file)),
        rows.update(last_free(rows), (before.volume->0.idx, file.starting_cluster)),
    )
}

/// Whether `after` and `result` are what a step of the controller means for
/// the OPEN_FILE syscall.
pub open spec fn file_stepped(
    before: FatFsDriver,
    search: FileSearch,
    outcome: Result<OpenStep, Error>,
    after: FatFsDriver,
    result: Result<FileStep, ErrorCode>,
) -> bool {
    match outcome {
        Ok(OpenStep::Opened(file)) => {
            &&& file_recorded(before, search, file, after)
            &&& result == Ok::<FileStep, ErrorCode>(FileStep::Opened(search.new_file_id as u32))
        },
        Ok(OpenStep::Truncate(file)) => {
            after == before && result == Ok::<FileStep, ErrorCode>(FileStep::Truncate(file))
        },
        Ok(OpenStep::Create(name, attributes)) => {
            after == before && result == Ok::<FileStep, ErrorCode>(
                FileStep::Create(name, attributes),
            )
        },
        Err(_) => after == before && result == Err::<FileStep, ErrorCode>(ErrorCode::INVAL),
    }
}

/// Whether `after` and `result` are what the end of the OPEN_FILE syscall comes
/// to, given the file that was truncated or created.
pub open spec fn file_opened(
    before: FatFsDriver,
    search: FileSearch,
    opened: Result<File, Error>,
    after: FatFsDriver,
    result: Result<u32, ErrorCode>,
) -> bool {
    match opened {
        Ok(file) if last_free(before.fatfs->0.open_files@) >= 0 => {
            &&& file_recorded(before, search, file, after)
            &&& result == Ok::<u32, ErrorCode>(search.new_file_id as u32)
        },
        _ => after == before && result == Err::<u32, ErrorCode>(ErrorCode::INVAL),
    }
}

/// Whether `after` and `result` are what the CLOSE_FILE syscall comes to.
pub open spec fn file_closed(
    before: FatFsDriver,
    file_id: usize,
    after: FatFsDriver,
    result: Result<(), ErrorCode>,
) -> bool {
    match (before.files, before.fatfs, before.volume) {
        (Some(files), Some(fs), Some(volume)) => if file_id >= MAX_FILES {
            after == before && result == Err::<(), ErrorCode>(ErrorCode::INVAL)
        } else {
            match files@[file_id as int] {
                Some(file) => {
                    &&& files_changed(
                        before,
                        after,
                        files@.update(file_id as int, None),
                        freed(fs.open_files@, (volume.idx, file.starting_cluster)),
                    )
                    &&& result is Ok
                },
                None => after == before && result == Err::<(), ErrorCode>(ErrorCode::ALREADY),
            }
        },
        _ => after == before && result == Err::<(), ErrorCode>(ErrorCode::FAIL),
    }
}

/// Whether `after` is the driver without a reservation: no volume, and, where
/// there is a controller, nothing open.
pub open spec fn was_reset(before: FatFsDriver, after: FatFsDriver) -> bool {
    &&& after.current_process is None
    &&& after.volume is None
    &&& after.filename_buffer == before.filename_buffer
    &&& match before.fatfs {
        None => {
            &&& after.fatfs is None
            &&& after.directories == before.directories
            &&& after.files == before.files
        },
        Some(old_fs) => {
            &&& after.fatfs matches Some(fs)
            &&& fs.state == old_fs.state
            &&& fs.buffer == old_fs.buffer
            &&& forall|i: int| 0 <= i < MAX_DIRS ==> #[trigger] fs.open_dirs@[i] == free_row()
            &&& forall|i: int| 0 <= i < MAX_FILES ==> #[trigger] fs.open_files@[i] == free_row()
            &&& after.directories is Some == before.directories is Some
            &&& after.directories matches Some(dirs) ==> forall|i: int|
                0 <= i < MAX_DIRS ==> (#[trigger] dirs@[i]) is None
            &&& after.files is Some == before.files is Some
            &&& after.files matches Some(files) ==> forall|i: int|
                0 <= i < MAX_FILES ==> (#[trigger] files@[i]) is None
        },
    }
}

/// What a syscall without a number returns.
pub open spec fn returned(result: Result<(), ErrorCode>) -> CommandReturn {
    match result {
        Ok(_) => CommandReturn::Success,
        Err(code) => CommandReturn::Failure(code),
    }
}

/// What a syscall with a number returns.
pub open spec fn returned_u32(result: Result<u32, ErrorCode>) -> CommandReturn {
    match result {
        Ok(id) => CommandReturn::SuccessU32(id),
        Err(code) => CommandReturn::Failure(code),
    }
}

/// Whether a command is one that only the process with the reservation may
/// give.
pub open spec fn needs_reservation(command_num: usize) -> bool {
    ||| command_num == CMD_OPEN_ROOT_DIR
    ||| command_num == CMD_OPEN_DIR
    ||| command_num == CMD_CLOSE_DIR
    ||| command_num == CMD_OPEN_FILE
    ||| command_num == CMD_CLOSE_FILE
    ||| command_num == CMD_DONE
}

/// Whether `after` and `step` are what a command comes to.
pub open spec fn commanded(
    before: FatFsDriver,
    command_num: usize,
    r2: usize,
    r3: usize,
    process_id: ProcessId,
    name: SharedName,
    after: FatFsDriver,
    step: CommandStep,
) -> bool {
    if command_num == CMD_INIT {
        match step {
            CommandStep::Retrieve(block) => init_begun(before, process_id, r2, after, Ok(block)),
            CommandStep::Return(CommandReturn::Failure(code)) => init_begun(
                before,
                process_id,
                r2,
                after,
                Err(code),
            ),
            _ => false,
        }
    } else if !needs_reservation(command_num) {
        after == before && step == CommandStep::Return(
            CommandReturn::Failure(ErrorCode::NOSUPPORT),
        )
    } else {
        match reservation(before, process_id) {
            Err(code) => after == before && step == CommandStep::Return(
                CommandReturn::Failure(code),
            ),
            Ok(_) => if command_num == CMD_OPEN_ROOT_DIR {
                exists|result: Result<u32, ErrorCode>| #[trigger]
                    root_dir_opened(before, after, result) && step == CommandStep::Return(
                        returned_u32(result),
                    )
            } else if command_num == CMD_OPEN_DIR {
                match step {
                    CommandStep::SearchDir(search) => opendir_begun(
                        before,
                        r2,
                        name,
                        after,
                        Ok(search),
                    ),
                    CommandStep::Return(CommandReturn::Failure(code)) => opendir_begun(
                        before,
                        r2,
                        name,
                        after,
                        Err(code),
                    ),
                    _ => false,
                }
            } else if command_num == CMD_CLOSE_DIR {
                exists|result: Result<(), ErrorCode>| #[trigger]
                    dir_closed(before, r2, after, result) && step == CommandStep::Return(
                        returned(result),
                    )
            } else if command_num == CMD_OPEN_FILE {
                match step {
                    CommandStep::SearchFile(search) => open_file_begun(
                        before,
                        r2,
                        r3,
                        name,
                        after,
                        Ok(search),
                    ),
                    CommandStep::Return(CommandReturn::Failure(code)) => open_file_begun(
                        before,
                        r2,
                        r3,
                        name,
                        after,
                        Err(code),
                    ),
                    _ => false,
                }
            } else if command_num == CMD_CLOSE_FILE {
                exists|result: Result<(), ErrorCode>| #[trigger]
                    file_closed(before, r2, after, result) && step == CommandStep::Return(
                        returned(result),
                    )
            } else {
                was_reset(before, after) && step == CommandStep::Return(CommandReturn::Success)
            },
        }
    }
}

/// Finds the lowest descriptor that is not taken.
fn free_descriptor<T>(table: &[Option<T>]) -> (id: Option<usize>)
    ensures
        match id {
            Some(i) => i == first_none(table@, 0) && i < table@.len() && table@[i as int] is None,
            None => first_none(table@, 0) == table@.len(),
        },
{
    let mut i: usize = 0;
    while i < table.len()
        invariant
            i <= table.len(),
            first_none(table@, 0) == first_none(table@, i as int),
        decreases table.len() - i,
    {
        if table[i].is_none() {
            return Some(i);
        }
        i = i + 1;
    }
    None
}

/// Copies a name from userspace. Makes sure we don't go over the userspace
/// buffer, as well as our local buffer.
fn copy_name(buffer: &mut Vec<u8>, data: &Vec<u8>)
    ensures
        final(buffer)@ == name_copied(old(buffer)@, data@),
{
    let mut i: usize = 0;
    while i < data.len() && i < buffer.len()
        invariant
            i <= data.len(),
            i <= buffer.len(),
            buffer.len() == old(buffer).len(),
            forall|j: int| 0 <= j < i ==> buffer@[j] == data@[j],
            forall|j: int| i <= j < buffer.len() ==> buffer@[j] == old(buffer)@[j],
        decreases buffer.len() - i,
    {
        buffer.set(i, data[i]);
        i = i + 1;
    }
    assert(buffer@ =~= name_copied(old(buffer)@, data@));
}

/// Determines the mode that a number stands for.
fn mode_from(mode: usize) -> (result: Option<Mode>)
    ensures
        result == mode_of(mode),
{
    match mode {
        0 => Some(Mode::ReadOnly),
        1 => Some(Mode::ReadWriteAppend),
        2 => Some(Mode::ReadWriteTruncate),
        3 => Some(Mode::ReadWriteCreate),
        4 => Some(Mode::ReadWriteCreateOrTruncate),
        5 => Some(Mode::ReadWriteCreateOrAppend),
        _ => None,
    }
}

impl FatFsDriver {
    /// Checks if the process making the syscall has the ability to do so.
    /// Returns Ok() iff the process making the syscall is the one which reserved the driver.
    /// Returns Fail(ErrorCode::RESERVE) if no process has reserved the driver,
    /// or Fail(ErrorCode::BUSY) if another process has reserved the driver.
    pub fn has_reservation(&self, process_id: &ProcessId) -> (result: Result<(), ErrorCode>)
        ensures
            result == reservation(*self, *process_id),
    {
        match self.current_process {
            // If no current process is set, indicate that the current calling process can
            // request to reserve the driver.
            None => Err(ErrorCode::RESERVE),
            Some(id) => if id.0 == process_id.0 {
                Ok(())
            } else {
                // Indicate that another process has reserved the driver.
                Err(ErrorCode::BUSY)
            },
        }
    }

    /// Resets the driver. This is done after a process is done using the driver.
    pub fn reset(&mut self)
        ensures
            was_reset(*old(self), *final(self)),
    {
        self.current_process = None;
        self.volume = None;
        match &mut self.fatfs {
            Some(fs) => {
                if self.directories.is_some() {
                    self.directories = Some([None, None, None, None, None, None, None, None]);
                }
                if self.files.is_some() {
                    self.files = Some([None, None, None, None, None, None, None, None]);
                }
                fs.reset();
            },
            None => {},
        }
    }

    /// Starts to handle the INIT syscall.
    pub fn syscall_init(&mut self, process_id: ProcessId, partition_index: usize) -> (result:
        Result<BlockIdx, ErrorCode>)
        ensures
            init_begun(*old(self), process_id, partition_index, *final(self), result),
    {
        // Init call is a little unique, but we can still re-use the function below
        match self.has_reservation(&process_id) {
            // If Ok() is returned, the current process has already reserved
            // the driver so INIT syscall makes no sense.
            Ok(_) => Err(ErrorCode::ALREADY),
            // This error means that no reservation has been made so far, so init can happen.
            Err(ErrorCode::RESERVE) => match &mut self.fatfs {
                Some(fs) => match fs.get_volume(VolumeIdx(partition_index)) {
                    Ok(block) => Ok(block),
                    Err(_) => Err(ErrorCode::FAIL),
                },
                None => Err(ErrorCode::FAIL),
            },
            // Can't init for this process. other process has reserved it.
            Err(code) => Err(code),
        }
    }

    /// Ends the INIT syscall with what the controller reported, or with the
    /// error that the device met. Reserves the driver, if successful; if not, the
    /// controller waits for nothing any more.
    pub fn init_done(&mut self, process_id: ProcessId, report: Result<Volume, Error>) -> (result:
        Result<(), ErrorCode>)
        requires
            old(self).current_process is None,
        ensures
            match report {
                Ok(volume) => {
                    &&& *final(self) == (FatFsDriver {
                        current_process: Some(process_id),
                        volume: Some(volume),
                        ..*old(self)
                    })
                    &&& result is Ok
                },
                Err(_) => {
                    &&& *final(self) == init_failed(*old(self))
                    &&& result == Err::<(), ErrorCode>(ErrorCode::FAIL)
                },
            },
    {
        match report {
            Ok(volume) => {
                self.current_process = Some(process_id);
                self.volume = Some(volume);
                Ok(())
            },
            Err(_) => {
                match &mut self.fatfs {
                    Some(fs) => {
                        fs.volume_abandoned();
                    },
                    None => {},
                }
                Err(ErrorCode::FAIL)
            },
        }
    }

    /// Opens the root directory and stores it in directory descriptor 0.
    pub fn syscall_open_root_dir(&mut self) -> (result: Result<u32, ErrorCode>)
        ensures
            root_dir_opened(*old(self), *final(self), result),
    {
        match &mut self.directories {
            Some(dirs) => {
                // If directory descriptor 0 is already taken, it's root.
                if dirs[0].is_some() {
                    return Err(ErrorCode::ALREADY);
                }
                match (&self.volume, &mut self.fatfs) {
                    (Some(volume), Some(fs)) => match fs.open_root_dir(volume) {
                        Ok(root_directory) => {
                            dirs[0] = Some(root_directory);
                            // Convention is to send back the file/dir descriptor (int)
                            // of whatever the userspace opened. For root dir it's always 0.
                            Ok(0)
                        },
                        Err(_) => Err(ErrorCode::FAIL),
                    },
                    _ => Err(ErrorCode::FAIL),
                }
            },
            None => Err(ErrorCode::FAIL),
        }
    }

    /// Starts to handle the OPEN_DIR syscall.
    pub fn syscall_opendir(&mut self, parent_dir_id: usize, name: SharedName) -> (result: Result<
        DirSearch,
        ErrorCode,
    >)
        ensures
            opendir_begun(*old(self), parent_dir_id, name, *final(self), result),
            result matches Ok(search) ==> awaits_dir(*final(self), search),
    {
        match (&self.directories, &self.fatfs, &self.volume, &mut self.filename_buffer) {
            (Some(dirs), Some(_), Some(_), Some(buffer)) => {
                // Retrieve the file name from userspace.
                match name {
                    SharedName::NoGrant => Err(ErrorCode::RESERVE),
                    SharedName::NotShared => Err(ErrorCode::FAIL),
                    SharedName::Shared(data) => {
                        // Check if the dir exists.
                        if parent_dir_id >= MAX_DIRS || dirs[parent_dir_id].is_none() {
                            return Err(ErrorCode::INVAL);
                        }
                        // Find the next free directory descriptor.
                        let new_dir_id: usize = match free_descriptor(dirs.as_slice()) {
                            Some(id) => id,
                            None => {
                                return Err(ErrorCode::NOMEM);
                            },
                        };
                        // Copy the filename from the userspace.
                        copy_name(buffer, &data);
                        Ok(DirSearch { parent_dir_id, new_dir_id })
                    },
                }
            },
            _ => Err(ErrorCode::FAIL),
        }
    }

    /// Ends the OPEN_DIR syscall with what the search for the directory found.
    pub fn opendir_found(&mut self, search: DirSearch, found: Result<DirEntry, Error>) -> (result:
        Result<u32, ErrorCode>)
        requires
            awaits_dir(*old(self), search),
        ensures
            dir_opened(*old(self), search, found, *final(self), result),
    {
        match (&mut self.directories, &self.volume, &mut self.fatfs) {
            (Some(dirs), Some(volume), Some(fs)) => match fs.open_dir(volume, found) {
                Ok(directory) => {
                    dirs[search.new_dir_id] = Some(directory);
                    Ok(search.new_dir_id as u32)
                },
                Err(_) => Err(ErrorCode::INVAL),
            },
            _ => Err(ErrorCode::FAIL),
        }
    }

    /// Handles the CLOSE_DIR syscall.
    pub fn syscall_close_dir(&mut self, dir_id: usize) -> (result: Result<(), ErrorCode>)
        ensures
            dir_closed(*old(self), dir_id, *final(self), result),
    {
        match (&mut self.directories, &mut self.fatfs, &self.volume) {
            (Some(dirs), Some(fs), Some(volume)) => {
                // Check if the dir exists. If it does, take it out of the memory
                // and replace it with None.
                if dir_id >= MAX_DIRS {
                    return Err(ErrorCode::INVAL);
                }
                if dirs[dir_id].is_none() {
                    // Not in the array of open dirs. Not open = Closed already.
                    return Err(ErrorCode::ALREADY);
                }
                match dirs[dir_id].take() {
                    Some(directory) => {
                        fs.close_dir(volume, directory);
                        Ok(())
                    },
                    None => Err(ErrorCode::ALREADY),
                }
            },
            _ => Err(ErrorCode::FAIL),
        }
    }

    /// Starts to handle the OPEN_FILE syscall.
    pub fn syscall_open_file(&mut self, parent_dir_id: usize, mode: usize, name: SharedName) -> (
        result: Result<FileSearch, ErrorCode>)
        ensures
            open_file_begun(*old(self), parent_dir_id, mode, name, *final(self), result),
            result matches Ok(search) ==> awaits_file(*final(self), search),
    {
        match (&self.directories, &self.files, &self.fatfs) {
            (Some(dirs), Some(files), Some(_)) => match (&self.volume, &mut self.filename_buffer) {
                (Some(_), Some(buffer)) => {
                    // Retrieve the file name from userspace.
                    match name {
                        SharedName::NoGrant => Err(ErrorCode::RESERVE),
                        SharedName::NotShared => Err(ErrorCode::FAIL),
                        SharedName::Shared(data) => {
                            // Check if the dir exists.
                            if parent_dir_id >= MAX_DIRS || dirs[parent_dir_id].is_none() {
                                return Err(ErrorCode::INVAL);
                            }
                            // Find the next free file descriptor.
                            let new_file_id: usize = match free_descriptor(files.as_slice()) {
                                Some(id) => id,
                                None => {
                                    return Err(ErrorCode::NOMEM);
                                },
                            };
                            // Copy the filename from the userspace.
                            copy_name(buffer, &data);
                            match mode_from(mode) {
                                Some(mode) => Ok(
                                    FileSearch { parent_dir_id, new_file_id, mode },
                                ),
                                None => Err(ErrorCode::INVAL),
                            }
                        },
                    }
                },
                _ => Err(ErrorCode::FAIL),
            },
            _ => Err(ErrorCode::INVAL),
        }
    }

    /// Goes on with the OPEN_FILE syscall after the search for the file.
    pub fn file_found(&mut self, search: FileSearch, found: Result<DirEntry, Error>) -> (result:
        Result<FileStep, ErrorCode>)
        requires
            awaits_file(*old(self), search),
        ensures
            exists|outcome: Result<OpenStep, Error>| #[trigger]
                is_file_outcome(
                    old(self).fatfs->0.open_files@,
                    old(self).volume->0.idx,
                    found,
                    old(self).filename_buffer->0@,
                    search.mode,
                    outcome,
                ) && file_stepped(*old(self), search, outcome, *final(self), result),
            result matches Ok(step) && !(step is Opened) ==> awaits_file(*final(self), search),
    {
        match (&mut self.files, &mut self.fatfs, &self.volume, &self.filename_buffer) {
            (Some(files), Some(fs), Some(volume), Some(name)) => {
                let outcome = fs.open_file_in_dir(volume, found, name.as_slice(), search.mode);
                match outcome {
                    Ok(OpenStep::Opened(file)) => {
                        files[search.new_file_id] = Some(file);
                        Ok(FileStep::Opened(search.new_file_id as u32))
                    },
                    Ok(OpenStep::Truncate(file)) => Ok(FileStep::Truncate(file)),
                    Ok(OpenStep::Create(name, attributes)) => Ok(
                        FileStep::Create(name, attributes),
                    ),
                    Err(_) => Err(ErrorCode::INVAL),
                }
            },
            _ => Err(ErrorCode::FAIL),
        }
    }

    /// Goes on with the OPEN_FILE syscall after the cluster chain of the file
    /// was truncated. The entry of the file that results is to be written to
    /// the disk, and the outcome handed to `file_stored`.
    pub fn file_truncated(file: File, truncated: Result<(), Error>) -> (result: Result<
        File,
        ErrorCode,
    >)
        ensures
            result == (match truncated {
                Ok(_) => Ok::<File, ErrorCode>(
                    File { length: 0, entry: DirEntry { size: 0, ..file.entry }, ..file },
                ),
                Err(_) => Err(ErrorCode::INVAL),
            }),
    {
        match FatFs::<MAX_DIRS, MAX_FILES>::chain_truncated(file, truncated) {
            Ok(file) => Ok(file),
            Err(_) => Err(ErrorCode::INVAL),
        }
    }

    /// Ends the OPEN_FILE syscall after the entry of a truncated file was
    /// written to the disk.
    pub fn file_stored(&mut self, search: FileSearch, file: File, stored: Result<(), Error>) -> (
        result: Result<u32, ErrorCode>)
        requires
            awaits_file(*old(self), search),
        ensures
            file_opened(
                *old(self),
                search,
                match stored {
                    Ok(_) => Ok(file),
                    Err(e) => Err(e),
                },
                *final(self),
                result,
            ),
    {
        match (&mut self.files, &mut self.fatfs, &self.volume) {
            (Some(files), Some(fs), Some(volume)) => match fs.entry_stored(volume, file, stored) {
                Ok(file) => {
                    files[search.new_file_id] = Some(file);
                    Ok(search.new_file_id as u32)
                },
                Err(_) => Err(ErrorCode::INVAL),
            },
            _ => Err(ErrorCode::FAIL),
        }
    }

    /// Ends the OPEN_FILE syscall after the entry of a new file was written to
    /// the disk.
    pub fn file_created(&mut self, search: FileSearch, created: Result<DirEntry, Error>) -> (result:
        Result<u32, ErrorCode>)
        requires
            awaits_file(*old(self), search),
        ensures
            file_opened(
                *old(self),
                search,
                match created {
                    Ok(entry) => Ok(File::opened(entry, Mode::ReadWriteCreate)),
                    Err(e) => Err(e),
                },
                *final(self),
                result,
            ),
    {
        match (&mut self.files, &mut self.fatfs, &self.volume) {
            (Some(files), Some(fs), Some(volume)) => match fs.entry_created(volume, created) {
                Ok(file) => {
                    files[search.new_file_id] = Some(file);
                    Ok(search.new_file_id as u32)
                },
                Err(_) => Err(ErrorCode::INVAL),
            },
            _ => Err(ErrorCode::FAIL),
        }
    }

    /// Handles the CLOSE_FILE syscall.
    pub fn syscall_close_file(&mut self, file_id: usize) -> (result: Result<(), ErrorCode>)
        ensures
            file_closed(*old(self), file_id, *final(self), result),
    {
        match (&mut self.files, &mut self.fatfs, &self.volume) {
            (Some(files), Some(fs), Some(volume)) => {
                if file_id >= MAX_FILES {
                    return Err(ErrorCode::INVAL);
                }
                if files[file_id].is_none() {
                    // Not in the array of open files. Not open = Closed already.
                    return Err(ErrorCode::ALREADY);
                }
                match files[file_id].take() {
                    Some(file) => {
                        let closed = fs.close_file(volume, file);
                        Ok(())
                    },
                    None => Err(ErrorCode::ALREADY),
                }
            },
            _ => Err(ErrorCode::FAIL),
        }
    }

    /// Handles a command of a process.
    pub fn command(
        &mut self,
        command_num: usize,
        r2: usize,
        r3: usize,
        process_id: ProcessId,
        name: SharedName,
    ) -> (step: CommandStep)
        ensures
            commanded(*old(self), command_num, r2, r3, process_id, name, *final(self), step),
    {
        if command_num == CMD_INIT {
            // Init syscall. Reserves the driver, if successful.
            // Treat the `r2` value as the ID of the partition that this process
            // wants to work with.
            return match self.syscall_init(process_id, r2) {
                Ok(block) => CommandStep::Retrieve(block),
                Err(code) => CommandStep::Return(CommandReturn::Failure(code)),
            };
        }
        if !(command_num == CMD_OPEN_ROOT_DIR || command_num == CMD_OPEN_DIR || command_num
            == CMD_CLOSE_DIR || command_num == CMD_OPEN_FILE || command_num == CMD_CLOSE_FILE
            || command_num == CMD_DONE) {
            return CommandStep::Return(CommandReturn::Failure(ErrorCode::NOSUPPORT));
        }
        // Otherwise, for any other syscall, there needs to be a reservation
        // made by the process.
        if let Err(code) = self.has_reservation(&process_id) {
            return CommandStep::Return(CommandReturn::Failure(code));
        }
        if command_num == CMD_OPEN_ROOT_DIR {
            let result = self.syscall_open_root_dir();
            assert(root_dir_opened(*old(self), *self, result));
            CommandStep::Return(command_return_u32(result))
        } else if command_num == CMD_OPEN_DIR {
            match self.syscall_opendir(r2, name) {
                Ok(search) => CommandStep::SearchDir(search),
                Err(code) => CommandStep::Return(CommandReturn::Failure(code)),
            }
        } else if command_num == CMD_CLOSE_DIR {
            let result = self.syscall_close_dir(r2);
            assert(dir_closed(*old(self), r2, *self, result));
            CommandStep::Return(command_return(result))
        } else if command_num == CMD_OPEN_FILE {
            match self.syscall_open_file(r2, r3, name) {
                Ok(search) => CommandStep::SearchFile(search),
                Err(code) => CommandStep::Return(CommandReturn::Failure(code)),
            }
        } else if command_num == CMD_CLOSE_FILE {
            let result = self.syscall_close_file(r2);
            assert(file_closed(*old(self), r2, *self, result));
            CommandStep::Return(command_return(result))
        } else {
            self.reset();
            CommandStep::Return(CommandReturn::Success)
        }
    }
}

/// What a syscall without a number returns.
pub fn command_return(result: Result<(), ErrorCode>) -> (value: CommandReturn)
    ensures
        value == returned(result),
{
    match result {
        Ok(_) => CommandReturn::Success,
        Err(code) => CommandReturn::Failure(code),
    }
}

/// What a syscall with a number returns.
pub fn command_return_u32(result: Result<u32, ErrorCode>) -> (value: CommandReturn)
    ensures
        value == returned_u32(result),
{
    match result {
        Ok(id) => CommandReturn::SuccessU32(id),
        Err(code) => CommandReturn::Failure(code),
    }
}

} // verus!
