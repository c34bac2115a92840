//! What each system call of the file system driver does, in terms of the
//! numbers that a process hands over and of what is open.
//!
//! Every law here is about a call: `call_ensures` relates the arguments of an
//! operation to what it returned, and the law says what the two have to do with
//! one another.
use crate::data_structures::{BlockIdx, Error, Volume};
use crate::driver::{
    command_return, command_return_u32, dir_closed, file_closed, first_none, open_file_begun,
    opendir_begun, returned, returned_u32, root_dir_opened, CommandReturn, CommandStep, DirSearch,
    FatFsDriver, FileSearch, FileStep, ProcessId, SharedName,
};
use crate::error_code::ErrorCode;
use crate::fatfs::{CurrentAsyncOperation, FatFs, OpenStep};
use crate::fatfs_operations::{
    entry_opens, first_row_taken, has_free_row, last_row_taken, lemma_first_row, lemma_given_up,
    lemma_last_row, lemma_lists, lemma_marks, lists, marks_directory, marks_read_only, opened_at,
    row_given_up, unused_row,
};
use crate::filename::{FilenameError, ShortFileName};
use crate::files::{Cluster, DirEntry, Directory, File, Mode};
use vstd::prelude::*;

verus! {

/// Whether a descriptor is the lowest that is free.
pub open spec fn lowest_free<T>(table: Seq<Option<T>>, id: int) -> bool {
    &&& 0 <= id < table.len()
    &&& table[id] is None
    &&& forall|j: int| 0 <= j < id ==> (#[trigger] table[j]) is Some
}

/// Whether every descriptor is taken.
pub open spec fn all_taken<T>(table: Seq<Option<T>>) -> bool {
    forall|j: int| 0 <= j < table.len() ==> (#[trigger] table[j]) is Some
}

/// The lowest descriptor that is free, where there is one.
proof fn lemma_lowest_free<T>(table: Seq<Option<T>>, from: int)
    requires
        0 <= from <= table.len(),
        forall|j: int| 0 <= j < from ==> (#[trigger] table[j]) is Some,
    ensures
        first_none(table, from) == table.len() <==> all_taken(table),
        first_none(table, from) != table.len() ==> lowest_free(table, first_none(table, from)),
    decreases table.len() - from,
{
    if from < table.len() && table[from] is Some {
        lemma_lowest_free(table, from + 1);
    }
}

/// Whether a step changed the descriptors of directories, and the table of open
/// directories of the controller, and nothing else.
pub open spec fn only_directories(before: FatFsDriver, after: FatFsDriver) -> bool {
    &&& before.directories is Some && after.directories is Some
    &&& before.fatfs is Some && after.fatfs is Some
    &&& after.files == before.files
    &&& after.filename_buffer == before.filename_buffer
    &&& after.volume == before.volume
    &&& after.current_process == before.current_process
    &&& after.fatfs->0.state == before.fatfs->0.state
    &&& after.fatfs->0.buffer == before.fatfs->0.buffer
    &&& after.fatfs->0.open_files == before.fatfs->0.open_files
}

/// Whether a step changed the descriptors of files, and the table of open files
/// of the controller, and nothing else.
pub open spec fn only_files(before: FatFsDriver, after: FatFsDriver) -> bool {
    &&& before.files is Some && after.files is Some
    &&& before.fatfs is Some && after.fatfs is Some
    &&& after.directories == before.directories
    &&& after.filename_buffer == before.filename_buffer
    &&& after.volume == before.volume
    &&& after.current_process == before.current_process
    &&& after.fatfs->0.state == before.fatfs->0.state
    &&& after.fatfs->0.buffer == before.fatfs->0.buffer
    &&& after.fatfs->0.open_dirs == before.fatfs->0.open_dirs
}

/// Whether one descriptor changed, and the others did not.
pub open spec fn only_descriptor<T>(
    before: Seq<Option<T>>,
    after: Seq<Option<T>>,
    id: int,
    value: Option<T>,
) -> bool {
    &&& before.len() == 8
    &&& after.len() == 8
    &&& 0 <= id < 8
    &&& after[id] == value
    &&& forall|j: int| 0 <= j < 8 && j != id ==> after[j] == #[trigger] before[j]
}

/// Whether the root directory opens as it should: it gets the descriptor 0.
pub open spec fn opens_root(
    before: FatFsDriver,
    after: FatFsDriver,
    result: Result<u32, ErrorCode>,
) -> bool {
    let dirs = before.directories->0@;
    let rows = before.fatfs->0.open_dirs@;
    let idx = before.volume->0.idx;
    let already = before.directories is Some && dirs[0] is Some;
    &&& result is Ok <==> {
        &&& before.directories is Some && before.volume is Some && before.fatfs is Some
        &&& !already
        &&& has_free_row(rows)
        &&& !lists(rows, idx, Cluster(0xFFFF_FFFC))
    }
    &&& result matches Err(e) ==> {
        &&& after == before
        &&& e == if already {
            ErrorCode::ALREADY
        } else {
            ErrorCode::FAIL
        }
    }
    &&& result matches Ok(id) ==> {
        &&& id == 0
        &&& only_directories(before, after)
        &&& after.directories->0@[0] matches Some(root)
        &&& root.cluster.0 == 0xFFFF_FFFC
        &&& root.entry is None
        &&& only_descriptor(dirs, after.directories->0@, 0, Some(root))
        &&& first_row_taken(rows, after.fatfs->0.open_dirs@, idx, root.cluster)
    }
}

/// The root directory opens as it should.
proof fn lemma_opens_root(before: FatFsDriver, after: FatFsDriver, result: Result<u32, ErrorCode>)
    requires
        root_dir_opened(before, after, result),
    ensures
        opens_root(before, after, result),
{
    let rows = before.fatfs->0.open_dirs@;
    let idx = before.volume->0.idx;
    lemma_first_row(rows, idx, Cluster(0xFFFF_FFFC));
    lemma_lists(rows, idx, Cluster(0xFFFF_FFFC));
}

/// Whether a step copied a name into the local buffer, as far as there is room,
/// and changed nothing else.
pub open spec fn name_in_buffer(before: FatFsDriver, data: Seq<u8>, after: FatFsDriver) -> bool {
    &&& after == FatFsDriver { filename_buffer: after.filename_buffer, ..before }
    &&& before.filename_buffer is Some && after.filename_buffer is Some
    &&& after.filename_buffer->0@.len() == before.filename_buffer->0@.len()
    &&& forall|i: int|
        0 <= i < after.filename_buffer->0@.len() ==> #[trigger] after.filename_buffer->0@[i]
            == if i < data.len() {
            data[i]
        } else {
            before.filename_buffer->0@[i]
        }
}

/// Whether a descriptor is that of an open directory.
pub open spec fn open_directory(driver: FatFsDriver, id: usize) -> bool {
    &&& driver.directories is Some
    &&& id < 8
    &&& driver.directories->0@[id as int] is Some
}

/// Whether a directory is searched for as it should be: in the directory that
/// was asked for, by the name that was shared, and for the lowest free
/// descriptor.
pub open spec fn searches_for_dir(
    before: FatFsDriver,
    parent_dir_id: usize,
    name: SharedName,
    after: FatFsDriver,
    result: Result<DirSearch, ErrorCode>,
) -> bool {
    let set_up = before.directories is Some && before.fatfs is Some && before.volume is Some
        && before.filename_buffer is Some;
    let dirs = before.directories->0@;
    &&& result is Ok <==> set_up && name is Shared && open_directory(before, parent_dir_id)
        && !all_taken(dirs)
    &&& result matches Err(e) ==> {
        &&& after == before
        &&& e == if !set_up {
            ErrorCode::FAIL
        } else if name is NoGrant {
            ErrorCode::RESERVE
        } else if name is NotShared {
            ErrorCode::FAIL
        } else if !open_directory(before, parent_dir_id) {
            ErrorCode::INVAL
        } else {
            ErrorCode::NOMEM
        }
    }
    &&& result matches Ok(search) ==> {
        &&& search.parent_dir_id == parent_dir_id
        &&& lowest_free(dirs, search.new_dir_id as int)
        &&& name_in_buffer(before, name->Shared_0@, after)
    }
}

/// A directory is searched for as it should be.
proof fn lemma_searches_for_dir(
    before: FatFsDriver,
    parent_dir_id: usize,
    name: SharedName,
    after: FatFsDriver,
    result: Result<DirSearch, ErrorCode>,
)
    requires
        opendir_begun(before, parent_dir_id, name, after, result),
    ensures
        searches_for_dir(before, parent_dir_id, name, after, result),
{
    if before.directories is Some {
        lemma_lowest_free(before.directories->0@, 0);
    }
}

/// The number of a mode.
pub open spec fn mode_number(mode: Mode) -> int {
    match mode {
        Mode::ReadOnly => 0,
        Mode::ReadWriteAppend => 1,
        Mode::ReadWriteTruncate => 2,
        Mode::ReadWriteCreate => 3,
        Mode::ReadWriteCreateOrTruncate => 4,
        Mode::ReadWriteCreateOrAppend => 5,
    }
}

/// Whether a file is searched for as it should be: in the directory that was
/// asked for, by the name that was shared, in the mode that was asked for, and
/// for the lowest free descriptor.
pub open spec fn searches_for_file(
    before: FatFsDriver,
    parent_dir_id: usize,
    mode: usize,
    name: SharedName,
    after: FatFsDriver,
    result: Result<FileSearch, ErrorCode>,
) -> bool {
    let tables = before.directories is Some && before.files is Some && before.fatfs is Some;
    let set_up = before.volume is Some && before.filename_buffer is Some;
    let files = before.files->0@;
    let accepted = tables && set_up && name is Shared && open_directory(before, parent_dir_id)
        && !all_taken(files);
    &&& result is Ok <==> accepted && mode <= 5
    &&& result matches Err(e) ==> {
        &&& accepted ==> name_in_buffer(before, name->Shared_0@, after)
        &&& !accepted ==> after == before
        &&& e == if !tables {
            ErrorCode::INVAL
        } else if !set_up {
            ErrorCode::FAIL
        } else if name is NoGrant {
            ErrorCode::RESERVE
        } else if name is NotShared {
            ErrorCode::FAIL
        } else if !open_directory(before, parent_dir_id) {
            ErrorCode::INVAL
        } else if all_taken(files) {
            ErrorCode::NOMEM
        } else {
            ErrorCode::INVAL
        }
    }
    &&& result matches Ok(search) ==> {
        &&& search.parent_dir_id == parent_dir_id
        &&& mode_number(search.mode) == mode
        &&& lowest_free(files, search.new_file_id as int)
        &&& name_in_buffer(before, name->Shared_0@, after)
    }
}

/// A file is searched for as it should be.
proof fn lemma_searches_for_file(
    before: FatFsDriver,
    parent_dir_id: usize,
    mode: usize,
    name: SharedName,
    after: FatFsDriver,
    result: Result<FileSearch, ErrorCode>,
)
    requires
        open_file_begun(before, parent_dir_id, mode, name, after, result),
    ensures
        searches_for_file(before, parent_dir_id, mode, name, after, result),
{
    if before.files is Some {
        lemma_lowest_free(before.files->0@, 0);
    }
}

/// Whether a directory closes as it should: its descriptor and its row are free
/// again, and no others are.
pub open spec fn closes_dir(
    before: FatFsDriver,
    dir_id: usize,
    after: FatFsDriver,
    result: Result<(), ErrorCode>,
) -> bool {
    let set_up = before.directories is Some && before.fatfs is Some && before.volume is Some;
    let dirs = before.directories->0@;
    &&& result is Ok <==> set_up && dir_id < 8 && dirs[dir_id as int] is Some
    &&& result matches Err(e) ==> {
        &&& after == before
        &&& e == if !set_up {
            ErrorCode::FAIL
        } else if dir_id >= 8 {
            ErrorCode::INVAL
        } else {
            ErrorCode::ALREADY
        }
    }
    &&& result is Ok ==> {
        &&& only_directories(before, after)
        &&& only_descriptor(dirs, after.directories->0@, dir_id as int, None)
        &&& row_given_up(
            before.fatfs->0.open_dirs@,
            after.fatfs->0.open_dirs@,
            before.volume->0.idx,
            dirs[dir_id as int]->0.cluster,
        )
    }
}

/// A directory closes as it should.
proof fn lemma_closes_dir(
    before: FatFsDriver,
    dir_id: usize,
    after: FatFsDriver,
    result: Result<(), ErrorCode>,
)
    requires
        dir_closed(before, dir_id, after, result),
    ensures
        closes_dir(before, dir_id, after, result),
{
    if result is Ok {
        lemma_given_up(
            before.fatfs->0.open_dirs@,
            before.volume->0.idx,
            before.directories->0@[dir_id as int]->0.cluster,
        );
    }
}

/// Whether a file closes as it should: its descriptor and its row are free again,
/// and no others are.
pub open spec fn closes_file(
    before: FatFsDriver,
    file_id: usize,
    after: FatFsDriver,
    result: Result<(), ErrorCode>,
) -> bool {
    let set_up = before.files is Some && before.fatfs is Some && before.volume is Some;
    let files = before.files->0@;
    &&& result is Ok <==> set_up && file_id < 8 && files[file_id as int] is Some
    &&& result matches Err(e) ==> {
        &&& after == before
        &&& e == if !set_up {
            ErrorCode::FAIL
        } else if file_id >= 8 {
            ErrorCode::INVAL
        } else {
            ErrorCode::ALREADY
        }
    }
    &&& result is Ok ==> {
        &&& only_files(before, after)
        &&& only_descriptor(files, after.files->0@, file_id as int, None)
        &&& row_given_up(
            before.fatfs->0.open_files@,
            after.fatfs->0.open_files@,
            before.volume->0.idx,
            files[file_id as int]->0.starting_cluster,
        )
    }
}

/// A file closes as it should.
proof fn lemma_closes_file(
    before: FatFsDriver,
    file_id: usize,
    after: FatFsDriver,
    result: Result<(), ErrorCode>,
)
    requires
        file_closed(before, file_id, after, result),
    ensures
        closes_file(before, file_id, after, result),
{
    if result is Ok {
        lemma_given_up(
            before.fatfs->0.open_files@,
            before.volume->0.idx,
            before.files->0@[file_id as int]->0.starting_cluster,
        );
    }
}

/// Whether a volume is asked for as it should be: for a process, while the
/// driver is not reserved and the controller idle.
pub open spec fn asks_for_volume(
    before: FatFsDriver,
    process_id: ProcessId,
    partition_index: usize,
    after: FatFsDriver,
    result: Result<BlockIdx, ErrorCode>,
) -> bool {
    &&& result is Ok <==> {
        &&& before.current_process is None
        &&& before.fatfs matches Some(fs)
        &&& fs.state == Some(CurrentAsyncOperation::Idle)
    }
    &&& result matches Err(e) ==> {
        &&& after == before
        &&& e == match before.current_process {
            None => ErrorCode::FAIL,
            Some(other) => if other.0 == process_id.0 {
                ErrorCode::ALREADY
            } else {
                ErrorCode::BUSY
            },
        }
    }
    &&& result matches Ok(block) ==> {
        &&& block.0 == 0
        &&& after.fatfs matches Some(fs)
        &&& after == FatFsDriver { fatfs: Some(fs), ..before }
        &&& fs == FatFs { state: fs.state, ..before.fatfs->0 }
        &&& fs.state matches Some(CurrentAsyncOperation::GetVolume { volume_idx })
        &&& partition_index <= u32::MAX ==> volume_idx == partition_index
    }
}

/// Whether a driver is left without a reservation, and with nothing open.
pub open spec fn left_by_process(before: FatFsDriver, after: FatFsDriver) -> bool {
    &&& after.current_process is None
    &&& after.volume is None
    &&& after.filename_buffer == before.filename_buffer
    &&& after.fatfs is Some <==> before.fatfs is Some
    &&& after.directories is Some <==> before.directories is Some
    &&& after.files is Some <==> before.files is Some
    &&& before.fatfs is None ==> after.directories == before.directories && after.files
        == before.files
    &&& after.fatfs matches Some(fs) ==> {
        &&& fs.state == before.fatfs->0.state
        &&& fs.buffer == before.fatfs->0.buffer
        &&& forall|i: int| 0 <= i < 8 ==> #[trigger] fs.open_dirs@[i] == unused_row()
        &&& forall|i: int| 0 <= i < 8 ==> #[trigger] fs.open_files@[i] == unused_row()
        &&& after.directories is Some ==> forall|i: int|
            0 <= i < 8 ==> (#[trigger] after.directories->0@[i]) is None
        &&& after.files is Some ==> forall|i: int|
            0 <= i < 8 ==> (#[trigger] after.files->0@[i]) is None
    }
}

/// The process with the reservation may go on; another is told that the driver
/// is busy, and any that it is not reserved where it is not.
pub proof fn law_reservation(
    driver: &FatFsDriver,
    process_id: &ProcessId,
    result: Result<(), ErrorCode>,
)
    requires
        call_ensures(FatFsDriver::has_reservation, (driver, process_id), result),
    ensures
        result == match driver.current_process {
            None => Err::<(), ErrorCode>(ErrorCode::RESERVE),
            Some(holder) => if holder.0 == process_id.0 {
                Ok(())
            } else {
                Err(ErrorCode::BUSY)
            },
        },
{
}

/// A reset ends the reservation and closes all that is open.
pub proof fn law_reset(driver: &mut FatFsDriver)
    requires
        call_ensures(FatFsDriver::reset, (driver,), ()),
    ensures
        left_by_process(*old(driver), *final(driver)),
{
}

/// A volume is asked for as it should be.
pub proof fn law_init(
    driver: &mut FatFsDriver,
    process_id: ProcessId,
    partition_index: usize,
    result: Result<BlockIdx, ErrorCode>,
)
    requires
        call_ensures(FatFsDriver::syscall_init, (driver, process_id, partition_index), result),
    ensures
        asks_for_volume(*old(driver), process_id, partition_index, *final(driver), result),
{
}

/// Once a volume was retrieved the driver is reserved for the process, with that
/// volume. Where it was not the driver is not reserved, and the controller does
/// not wait for a volume.
pub proof fn law_init_done(
    driver: &mut FatFsDriver,
    process_id: ProcessId,
    report: Result<Volume, Error>,
    result: Result<(), ErrorCode>,
)
    requires
        call_ensures(FatFsDriver::init_done, (driver, process_id, report), result),
    ensures
        result is Ok <==> report is Ok,
        report matches Ok(volume) ==> *final(driver) == (FatFsDriver {
            current_process: Some(process_id),
            volume: Some(volume),
            ..*old(driver)
        }),
        result matches Err(e) ==> {
            &&& e == ErrorCode::FAIL
            &&& *final(driver) == (FatFsDriver { fatfs: final(driver).fatfs, ..*old(driver) })
            &&& final(driver).fatfs is Some <==> old(driver).fatfs is Some
            &&& final(driver).fatfs matches Some(fs) ==> {
                &&& fs == FatFs { state: fs.state, ..old(driver).fatfs->0 }
                &&& !(fs.state matches Some(CurrentAsyncOperation::GetVolume { .. }))
                &&& old(driver).fatfs->0.state matches Some(CurrentAsyncOperation::GetVolume { .. })
                    ==> fs.state == Some(CurrentAsyncOperation::Idle)
                &&& !(old(driver).fatfs->0.state matches Some(
                    CurrentAsyncOperation::GetVolume { .. },
                )) ==> fs.state == old(driver).fatfs->0.state
            }
        },
{
}

/// The root directory opens as it should.
pub proof fn law_open_root_dir(driver: &mut FatFsDriver, result: Result<u32, ErrorCode>)
    requires
        call_ensures(FatFsDriver::syscall_open_root_dir, (driver,), result),
    ensures
        opens_root(*old(driver), *final(driver), result),
{
    lemma_opens_root(*old(driver), *final(driver), result);
}

/// A directory is searched for as it should be.
pub proof fn law_opendir(
    driver: &mut FatFsDriver,
    parent_dir_id: usize,
    name: SharedName,
    result: Result<DirSearch, ErrorCode>,
)
    requires
        call_ensures(FatFsDriver::syscall_opendir, (driver, parent_dir_id, name), result),
    ensures
        searches_for_dir(*old(driver), parent_dir_id, name, *final(driver), result),
{
    lemma_searches_for_dir(*old(driver), parent_dir_id, name, *final(driver), result);
}

/// A directory that was found gets the descriptor that was chosen for it, and the
/// last free row, unless it is no directory, is open or no row is free.
pub proof fn law_opendir_found(
    driver: &mut FatFsDriver,
    search: DirSearch,
    found: Result<DirEntry, Error>,
    result: Result<u32, ErrorCode>,
)
    requires
        call_ensures(FatFsDriver::opendir_found, (driver, search, found), result),
        driver.fatfs is Some,
        driver.volume is Some,
        driver.directories is Some,
        search.new_dir_id < 8,
    ensures
        ({
            let rows = old(driver).fatfs->0.open_dirs@;
            let idx = old(driver).volume->0.idx;
            let entry = found->Ok_0;
            &&& result is Ok <==> {
                &&& has_free_row(rows)
                &&& found is Ok
                &&& marks_directory(entry.attributes)
                &&& !lists(rows, idx, entry.cluster)
            }
            &&& result matches Err(e) ==> e == ErrorCode::INVAL && *final(driver) == *old(driver)
            &&& result matches Ok(id) ==> {
                &&& id == search.new_dir_id
                &&& only_directories(*old(driver), *final(driver))
                &&& only_descriptor(
                    old(driver).directories->0@,
                    final(driver).directories->0@,
                    id as int,
                    Some(Directory { cluster: entry.cluster, entry: Some(entry) }),
                )
                &&& last_row_taken(rows, final(driver).fatfs->0.open_dirs@, idx, entry.cluster)
            }
        }),
{
    let rows = driver.fatfs->0.open_dirs@;
    let idx = driver.volume->0.idx;
    lemma_last_row(rows, idx, found->Ok_0.cluster);
    lemma_lists(rows, idx, found->Ok_0.cluster);
    lemma_marks(found->Ok_0.attributes);
}

/// A directory closes as it should.
pub proof fn law_close_dir(driver: &mut FatFsDriver, dir_id: usize, result: Result<(), ErrorCode>)
    requires
        call_ensures(FatFsDriver::syscall_close_dir, (driver, dir_id), result),
    ensures
        closes_dir(*old(driver), dir_id, *final(driver), result),
{
    lemma_closes_dir(*old(driver), dir_id, *final(driver), result);
}

/// A file is searched for as it should be.
pub proof fn law_open_file(
    driver: &mut FatFsDriver,
    parent_dir_id: usize,
    mode: usize,
    name: SharedName,
    result: Result<FileSearch, ErrorCode>,
)
    requires
        call_ensures(FatFsDriver::syscall_open_file, (driver, parent_dir_id, mode, name), result),
    ensures
        searches_for_file(*old(driver), parent_dir_id, mode, name, *final(driver), result),
{
    lemma_searches_for_file(*old(driver), parent_dir_id, mode, name, *final(driver), result);
}

/// Whether a file is recorded at the descriptor that was chosen for it, and in
/// the last free row.
pub open spec fn records_file(
    before: FatFsDriver,
    search: FileSearch,
    file: File,
    after: FatFsDriver,
) -> bool {
    &&& only_files(before, after)
    &&& only_descriptor(
        before.files->0@,
        after.files->0@,
        search.new_file_id as int,
        Some(file),
    )
    &&& last_row_taken(
        before.fatfs->0.open_files@,
        after.fatfs->0.open_files@,
        before.volume->0.idx,
        file.starting_cluster,
    )
}

/// A file that was found opens in the mode that was asked for, and gets the
/// descriptor that was chosen for it, or is to be truncated first. One that was
/// not found is created under the name in the local buffer, if the mode allows
/// that. Whatever stands against it, the process is told that the request is not
/// valid, and nothing has changed.
pub proof fn law_file_found(
    driver: &mut FatFsDriver,
    search: FileSearch,
    found: Result<DirEntry, Error>,
    name: &[u8],
    stored: Result<ShortFileName, FilenameError>,
    result: Result<FileStep, ErrorCode>,
)
    requires
        call_ensures(FatFsDriver::file_found, (driver, search, found), result),
        call_ensures(ShortFileName::create_from_buffer, (name,), stored),
        driver.fatfs is Some,
        driver.volume is Some,
        driver.files is Some,
        driver.filename_buffer is Some,
        name@ == driver.filename_buffer->0@,
        search.new_file_id < 8,
    ensures
        ({
            let rows = old(driver).fatfs->0.open_files@;
            let idx = old(driver).volume->0.idx;
            let mode = search.mode;
            let entry = found->Ok_0;
            let creates = mode == Mode::ReadWriteCreate || mode == Mode::ReadWriteCreateOrTruncate
                || mode == Mode::ReadWriteCreateOrAppend;
            let opens = {
                &&& found is Ok
                &&& mode != Mode::ReadWriteCreate
                &&& !lists(rows, idx, entry.cluster)
                &&& !marks_directory(entry.attributes)
                &&& marks_read_only(entry.attributes) ==> mode == Mode::ReadOnly
            };
            &&& result is Ok <==> has_free_row(rows) && (opens || (found is Err && creates
                && stored is Ok))
            &&& result matches Err(e) ==> e == ErrorCode::INVAL && *final(driver) == *old(driver)
            &&& result matches Ok(step) ==> match step {
                FileStep::Opened(id) => {
                    &&& opens
                    &&& id == search.new_file_id
                    &&& final(driver).files->0@[id as int] matches Some(file)
                    &&& records_file(*old(driver), search, file, *final(driver))
                    &&& entry_opens(
                        rows,
                        final(driver).fatfs->0.open_files@,
                        idx,
                        entry,
                        mode,
                        Ok::<OpenStep, Error>(OpenStep::Opened(file)),
                    )
                },
                FileStep::Truncate(file) => {
                    &&& opens
                    &&& *final(driver) == *old(driver)
                    &&& entry_opens(
                        rows,
                        rows,
                        idx,
                        entry,
                        mode,
                        Ok::<OpenStep, Error>(OpenStep::Truncate(file)),
                    )
                },
                FileStep::Create(file_name, attributes) => {
                    &&& found is Err
                    &&& *final(driver) == *old(driver)
                    &&& file_name@ == stored->Ok_0@
                    &&& attributes.0 == 0
                },
            }
        }),
{
    let rows = driver.fatfs->0.open_files@;
    let idx = driver.volume->0.idx;
    lemma_last_row(rows, idx, found->Ok_0.cluster);
    lemma_lists(rows, idx, found->Ok_0.cluster);
    lemma_marks(found->Ok_0.attributes);
}

/// A file whose chain was truncated has length 0, in its entry too; nothing else
/// of it changes.
pub proof fn law_file_truncated(
    file: File,
    truncated: Result<(), Error>,
    result: Result<File, ErrorCode>,
)
    requires
        call_ensures(FatFsDriver::file_truncated, (file, truncated), result),
    ensures
        truncated is Err ==> result == Err::<File, ErrorCode>(ErrorCode::INVAL),
        truncated is Ok ==> {
            &&& result matches Ok(after)
            &&& after.length == 0
            &&& after.entry == (DirEntry { size: 0, ..file.entry })
            &&& after == (File { length: after.length, entry: after.entry, ..file })
        },
{
}

/// A truncated file whose entry was stored is open, with the descriptor that was
/// chosen for it.
pub proof fn law_file_stored(
    driver: &mut FatFsDriver,
    search: FileSearch,
    file: File,
    stored: Result<(), Error>,
    result: Result<u32, ErrorCode>,
)
    requires
        call_ensures(FatFsDriver::file_stored, (driver, search, file, stored), result),
        driver.fatfs is Some,
        driver.volume is Some,
        driver.files is Some,
        search.new_file_id < 8,
    ensures
        result is Ok <==> stored is Ok && has_free_row(old(driver).fatfs->0.open_files@),
        result matches Err(e) ==> e == ErrorCode::INVAL && *final(driver) == *old(driver),
        result matches Ok(id) ==> {
            &&& id == search.new_file_id
            &&& records_file(*old(driver), search, file, *final(driver))
        },
{
    lemma_last_row(driver.fatfs->0.open_files@, driver.volume->0.idx, file.starting_cluster);
}

/// A file that was created is open at its start, with the descriptor that was
/// chosen for it.
pub proof fn law_file_created(
    driver: &mut FatFsDriver,
    search: FileSearch,
    created: Result<DirEntry, Error>,
    result: Result<u32, ErrorCode>,
)
    requires
        call_ensures(FatFsDriver::file_created, (driver, search, created), result),
        driver.fatfs is Some,
        driver.volume is Some,
        driver.files is Some,
        search.new_file_id < 8,
    ensures
        result is Ok <==> created is Ok && has_free_row(old(driver).fatfs->0.open_files@),
        result matches Err(e) ==> e == ErrorCode::INVAL && *final(driver) == *old(driver),
        result matches Ok(id) ==> {
            &&& id == search.new_file_id
            &&& final(driver).files->0@[id as int] matches Some(file)
            &&& opened_at(file, created->Ok_0, Mode::ReadWriteCreate, 0)
            &&& records_file(*old(driver), search, file, *final(driver))
        },
{
    lemma_last_row(
        driver.fatfs->0.open_files@,
        driver.volume->0.idx,
        created->Ok_0.cluster,
    );
}

/// A file closes as it should.
pub proof fn law_close_file(driver: &mut FatFsDriver, file_id: usize, result: Result<(), ErrorCode>)
    requires
        call_ensures(FatFsDriver::syscall_close_file, (driver, file_id), result),
    ensures
        closes_file(*old(driver), file_id, *final(driver), result),
{
    lemma_closes_file(*old(driver), file_id, *final(driver), result);
}

/// What is returned to userspace tells success from failure, and carries the
/// number or the error.
pub proof fn law_returned(
    result: Result<(), ErrorCode>,
    value: CommandReturn,
    numbered: Result<u32, ErrorCode>,
    numbered_value: CommandReturn,
)
    requires
        call_ensures(command_return, (result,), value),
        call_ensures(command_return_u32, (numbered,), numbered_value),
    ensures
        result is Ok ==> value == CommandReturn::Success,
        result matches Err(e) ==> value == CommandReturn::Failure(e),
        numbered matches Ok(n) ==> numbered_value == CommandReturn::SuccessU32(n),
        numbered matches Err(e) ==> numbered_value == CommandReturn::Failure(e),
{
}

/// The command 0 asks for the volume whose number is in the first argument.
pub proof fn law_command_init(
    driver: &mut FatFsDriver,
    r2: usize,
    r3: usize,
    process_id: ProcessId,
    name: SharedName,
    step: CommandStep,
)
    requires
        call_ensures(FatFsDriver::command, (driver, 0usize, r2, r3, process_id, name), step),
    ensures
        match step {
            CommandStep::Retrieve(block) => asks_for_volume(
                *old(driver),
                process_id,
                r2,
                *final(driver),
                Ok(block),
            ),
            CommandStep::Return(CommandReturn::Failure(e)) => asks_for_volume(
                *old(driver),
                process_id,
                r2,
                *final(driver),
                Err(e),
            ),
            _ => false,
        },
{
}

/// The commands 1 to 5 and 8 are refused to any process but the one with the
/// reservation, and a command with another number but 0 is not known; nothing
/// changes then.
pub proof fn law_command_refused(
    driver: &mut FatFsDriver,
    command_num: usize,
    r2: usize,
    r3: usize,
    process_id: ProcessId,
    name: SharedName,
    step: CommandStep,
)
    requires
        call_ensures(FatFsDriver::command, (driver, command_num, r2, r3, process_id, name), step),
        command_num > 0,
        command_num == 6 || command_num == 7 || command_num > 8 || driver.current_process is None
            || driver.current_process->Some_0.0 != process_id.0,
    ensures
        *final(driver) == *old(driver),
        step matches CommandStep::Return(CommandReturn::Failure(e)) && e == if command_num == 6
            || command_num == 7 || command_num > 8 {
            ErrorCode::NOSUPPORT
        } else if old(driver).current_process is None {
            ErrorCode::RESERVE
        } else {
            ErrorCode::BUSY
        },
{
}

/// The command 1 of the process with the reservation opens the root directory.
pub proof fn law_command_open_root_dir(
    driver: &mut FatFsDriver,
    r2: usize,
    r3: usize,
    process_id: ProcessId,
    name: SharedName,
    step: CommandStep,
)
    requires
        call_ensures(FatFsDriver::command, (driver, 1usize, r2, r3, process_id, name), step),
        driver.current_process == Some(process_id),
    ensures
        match step {
            CommandStep::Return(CommandReturn::SuccessU32(id)) => opens_root(
                *old(driver),
                *final(driver),
                Ok(id),
            ),
            CommandStep::Return(CommandReturn::Failure(e)) => opens_root(
                *old(driver),
                *final(driver),
                Err(e),
            ),
            _ => false,
        },
{
    let result = choose|result: Result<u32, ErrorCode>| #[trigger]
        root_dir_opened(*old(driver), *final(driver), result) && step == CommandStep::Return(
            returned_u32(result),
        );
    lemma_opens_root(*old(driver), *final(driver), result);
}

/// The command 2 of the process with the reservation searches for a directory, in
/// the one whose descriptor is in the first argument.
pub proof fn law_command_open_dir(
    driver: &mut FatFsDriver,
    r2: usize,
    r3: usize,
    process_id: ProcessId,
    name: SharedName,
    step: CommandStep,
)
    requires
        call_ensures(FatFsDriver::command, (driver, 2usize, r2, r3, process_id, name), step),
        driver.current_process == Some(process_id),
    ensures
        match step {
            CommandStep::SearchDir(search) => searches_for_dir(
                *old(driver),
                r2,
                name,
                *final(driver),
                Ok(search),
            ),
            CommandStep::Return(CommandReturn::Failure(e)) => searches_for_dir(
                *old(driver),
                r2,
                name,
                *final(driver),
                Err(e),
            ),
            _ => false,
        },
{
    match step {
        CommandStep::SearchDir(search) => lemma_searches_for_dir(
            *old(driver),
            r2,
            name,
            *final(driver),
            Ok(search),
        ),
        CommandStep::Return(CommandReturn::Failure(e)) => lemma_searches_for_dir(
            *old(driver),
            r2,
            name,
            *final(driver),
            Err(e),
        ),
        _ => {},
    }
}

/// The command 3 of the process with the reservation closes the directory whose
/// descriptor is in the first argument.
pub proof fn law_command_close_dir(
    driver: &mut FatFsDriver,
    r2: usize,
    r3: usize,
    process_id: ProcessId,
    name: SharedName,
    step: CommandStep,
)
    requires
        call_ensures(FatFsDriver::command, (driver, 3usize, r2, r3, process_id, name), step),
        driver.current_process == Some(process_id),
    ensures
        match step {
            CommandStep::Return(CommandReturn::Success) => closes_dir(
                *old(driver),
                r2,
                *final(driver),
                Ok(()),
            ),
            CommandStep::Return(CommandReturn::Failure(e)) => closes_dir(
                *old(driver),
                r2,
                *final(driver),
                Err(e),
            ),
            _ => false,
        },
{
    let result = choose|result: Result<(), ErrorCode>| #[trigger]
        dir_closed(*old(driver), r2, *final(driver), result) && step == CommandStep::Return(
            returned(result),
        );
    lemma_closes_dir(*old(driver), r2, *final(driver), result);
}

/// The command 4 of the process with the reservation searches for a file, in the
/// directory whose descriptor is in the first argument and for the mode whose
/// number is in the second. It does go on to the search where that directory is
/// open, there is such a mode, a name is shared and a descriptor is free.
pub proof fn law_command_open_file(
    driver: &mut FatFsDriver,
    r2: usize,
    r3: usize,
    process_id: ProcessId,
    name: SharedName,
    step: CommandStep,
)
    requires
        call_ensures(FatFsDriver::command, (driver, 4usize, r2, r3, process_id, name), step),
        driver.current_process == Some(process_id),
    ensures
        match step {
            CommandStep::SearchFile(search) => searches_for_file(
                *old(driver),
                r2,
                r3,
                name,
                *final(driver),
                Ok(search),
            ),
            CommandStep::Return(CommandReturn::Failure(e)) => searches_for_file(
                *old(driver),
                r2,
                r3,
                name,
                *final(driver),
                Err(e),
            ),
            _ => false,
        },
{
    match step {
        CommandStep::SearchFile(search) => lemma_searches_for_file(
            *old(driver),
            r2,
            r3,
            name,
            *final(driver),
            Ok(search),
        ),
        CommandStep::Return(CommandReturn::Failure(e)) => lemma_searches_for_file(
            *old(driver),
            r2,
            r3,
            name,
            *final(driver),
            Err(e),
        ),
        _ => {},
    }
}

/// The command 5 of the process with the reservation closes the file whose
/// descriptor is in the first argument.
pub proof fn law_command_close_file(
    driver: &mut FatFsDriver,
    r2: usize,
    r3: usize,
    process_id: ProcessId,
    name: SharedName,
    step: CommandStep,
)
    requires
        call_ensures(FatFsDriver::command, (driver, 5usize, r2, r3, process_id, name), step),
        driver.current_process == Some(process_id),
    ensures
        match step {
            CommandStep::Return(CommandReturn::Success) => closes_file(
                *old(driver),
                r2,
                *final(driver),
                Ok(()),
            ),
            CommandStep::Return(CommandReturn::Failure(e)) => closes_file(
                *old(driver),
                r2,
                *final(driver),
                Err(e),
            ),
            _ => false,
        },
{
    let result = choose|result: Result<(), ErrorCode>| #[trigger]
        file_closed(*old(driver), r2, *final(driver), result) && step == CommandStep::Return(
            returned(result),
        );
    lemma_closes_file(*old(driver), r2, *final(driver), result);
}

/// The command 8 of the process with the reservation ends it, and closes all that
/// is open.
pub proof fn law_command_done(
    driver: &mut FatFsDriver,
    r2: usize,
    r3: usize,
    process_id: ProcessId,
    name: SharedName,
    step: CommandStep,
)
    requires
        call_ensures(FatFsDriver::command, (driver, 8usize, r2, r3, process_id, name), step),
        driver.current_process == Some(process_id),
    ensures
        step == CommandStep::Return(CommandReturn::Success),
        left_by_process(*old(driver), *final(driver)),
{
}

/// A search for a directory can be ended where it is for a free descriptor.
pub proof fn law_opendir_found_is_possible(
    driver: &mut FatFsDriver,
    search: DirSearch,
    found: Result<DirEntry, Error>,
)
    requires
        driver.fatfs is Some,
        driver.volume is Some,
        driver.directories is Some,
        lowest_free(driver.directories->0@, search.new_dir_id as int),
    ensures
        call_requires(FatFsDriver::opendir_found, (old(driver), search, found)),
{
}

/// A search for a file, and what it leads to, can be ended where it is for a free
/// descriptor.
pub proof fn law_file_found_is_possible(
    driver: &mut FatFsDriver,
    search: FileSearch,
    found: Result<DirEntry, Error>,
    file: File,
    stored: Result<(), Error>,
)
    requires
        driver.fatfs is Some,
        driver.volume is Some,
        driver.filename_buffer is Some,
        driver.files is Some,
        lowest_free(driver.files->0@, search.new_file_id as int),
    ensures
        call_requires(FatFsDriver::file_found, (old(driver), search, found)),
        call_requires(FatFsDriver::file_stored, (old(driver), search, file, stored)),
        call_requires(FatFsDriver::file_created, (old(driver), search, found)),
{
}

/// A volume can be taken over, or the failure to get it, while the driver is not
/// reserved.
pub proof fn law_init_done_is_possible(
    driver: &mut FatFsDriver,
    process_id: ProcessId,
    report: Result<Volume, Error>,
)
    requires
        driver.current_process is None,
    ensures
        call_requires(FatFsDriver::init_done, (old(driver), process_id, report)),
{
}

} // verus!
