//! What each operation of the controller does, in terms of the bytes of a block,
//! the rows of the tables and what a directory entry says.
//!
//! Every law here is about a call: `call_ensures` relates the arguments of an
//! operation to what it returned, and the law says what the two have to do with
//! one another.
use crate::data_structures::{BlockIdx, Error, Volume, VolumeIdx, VolumeType};
use crate::error_code::ErrorCode;
use crate::fatfs::{
    solve_mode_variant, CurrentAsyncOperation, FatFs, OpenStep, Partition, ReadOutcome,
};
use crate::filename::{FilenameError, ShortFileName};
use crate::files::{Attributes, Cluster, DirEntry, Directory, File, Mode};
use crate::handles::{
    first_free, freed, is_free, last_free, lemma_first_free, lemma_last_free, lemma_row_of, row_of,
};
use vstd::prelude::*;

verus! {

/// Whether `result` is what a Master Boot Record says about its partition `idx`:
/// the record is signed, there are four entries of 16 bytes from byte 446 on, and
/// an entry holds a status, a type, the first block and the number of blocks.
pub open spec fn says_of_partition(
    block: Seq<u8>,
    idx: int,
    result: Result<Partition, Error>,
) -> bool {
    let signed = block[510] == 0x55 && block[511] == 0xAA;
    let status = block[446 + 16 * idx];
    let part_type = block[450 + 16 * idx];
    let known = {
        &&& status == 0x00 || status == 0x80
        &&& part_type == 0x06 || part_type == 0x0B || part_type == 0x0C || part_type == 0x0E
    };
    &&& result is Ok <==> signed && idx < 4 && known
    &&& result matches Ok(partition) ==> {
        &&& partition.lba_start.0 == block[454 + 16 * idx] + block[455 + 16 * idx] * 0x100 + block[
        456 + 16 * idx] * 0x1_0000 + block[457 + 16 * idx] * 0x100_0000
        &&& partition.num_blocks.0 == block[458 + 16 * idx] + block[459 + 16 * idx] * 0x100 + block[
        460 + 16 * idx] * 0x1_0000 + block[461 + 16 * idx] * 0x100_0000
    }
    &&& result matches Err(e) ==> e == if signed && idx >= 4 {
        Error::NoSuchVolume
    } else {
        Error::FormatError
    }
}

/// A partition is found in the entry of its number.
pub proof fn law_partition_found<const MAX_DIRS: usize, const MAX_FILES: usize>(
    fs: &FatFs<MAX_DIRS, MAX_FILES>,
    volume_idx: VolumeIdx,
    result: Result<Partition, Error>,
)
    requires
        call_ensures(FatFs::<MAX_DIRS, MAX_FILES>::get_volume_resume, (fs, volume_idx), result),
    ensures
        says_of_partition(fs.buffer@, volume_idx.0 as int, result),
{
}

/// A block that arrives while a volume is retrieved is the Master Boot Record.
/// Where it has the partition of that volume the retrieval goes on, and otherwise
/// it ends. A block that arrives at any other time is ignored.
pub proof fn law_block_arrives<const MAX_DIRS: usize, const MAX_FILES: usize>(
    fs: &mut FatFs<MAX_DIRS, MAX_FILES>,
    block: &[u8; 512],
    block_idx: u32,
    status: Result<(), ()>,
    outcome: ReadOutcome,
)
    requires
        call_ensures(
            FatFs::<MAX_DIRS, MAX_FILES>::read_done,
            (fs, block, block_idx, status),
            outcome,
        ),
    ensures
        final(fs).open_dirs == old(fs).open_dirs,
        final(fs).open_files == old(fs).open_files,
        match old(fs).state {
            Some(CurrentAsyncOperation::GetVolume { volume_idx }) => {
                &&& final(fs).buffer == *block
                &&& !(outcome is Ignored)
                &&& match outcome {
                    ReadOutcome::Ignored => true,
                    ReadOutcome::ParseVolume(partition) => {
                        &&& says_of_partition(
                            block@,
                            volume_idx as int,
                            Ok::<Partition, Error>(partition),
                        )
                        &&& final(fs).state == old(fs).state
                    },
                    ReadOutcome::Failed(e) => {
                        &&& says_of_partition(
                            block@,
                            volume_idx as int,
                            Err::<Partition, Error>(e),
                        )
                        &&& final(fs).state == Some(CurrentAsyncOperation::Idle)
                    },
                }
            },
            _ => outcome is Ignored && *final(fs) == *old(fs),
        },
{
}

/// A volume is asked for while nothing is going on, and its number kept; the
/// Master Boot Record, which is the first block, is to be read for it.
pub proof fn law_volume_asked_for<const MAX_DIRS: usize, const MAX_FILES: usize>(
    fs: &mut FatFs<MAX_DIRS, MAX_FILES>,
    volume_idx: VolumeIdx,
    result: Result<BlockIdx, ErrorCode>,
)
    requires
        call_ensures(FatFs::<MAX_DIRS, MAX_FILES>::get_volume, (fs, volume_idx), result),
        volume_idx.0 <= u32::MAX,
    ensures
        final(fs).buffer == old(fs).buffer,
        final(fs).open_dirs == old(fs).open_dirs,
        final(fs).open_files == old(fs).open_files,
        result is Ok <==> old(fs).state == Some(CurrentAsyncOperation::Idle),
        match result {
            Ok(block_idx) => {
                &&& block_idx.0 == 0
                &&& final(fs).state matches Some(
                    CurrentAsyncOperation::GetVolume { volume_idx: kept },
                )
                &&& kept == volume_idx.0
            },
            Err(e) => {
                &&& e == if old(fs).state is None {
                    ErrorCode::FAIL
                } else {
                    ErrorCode::BUSY
                }
                &&& final(fs).state == old(fs).state
            },
        },
{
}

/// The volume that was asked for is reported, with what was found in its
/// partition, and the controller is idle again. Without a retrieval there is
/// nothing to report.
pub proof fn law_volume_reported<const MAX_DIRS: usize, const MAX_FILES: usize>(
    fs: &mut FatFs<MAX_DIRS, MAX_FILES>,
    parsed: Result<VolumeType, Error>,
    report: Option<Result<Volume, Error>>,
)
    requires
        call_ensures(FatFs::<MAX_DIRS, MAX_FILES>::volume_parsed, (fs, parsed), report),
    ensures
        final(fs).buffer == old(fs).buffer,
        final(fs).open_dirs == old(fs).open_dirs,
        final(fs).open_files == old(fs).open_files,
        match old(fs).state {
            Some(CurrentAsyncOperation::GetVolume { volume_idx }) => {
                &&& final(fs).state == Some(CurrentAsyncOperation::Idle)
                &&& report matches Some(told)
                &&& told is Ok <==> parsed is Ok
                &&& told matches Err(e) ==> e == parsed->Err_0
                &&& told matches Ok(volume) ==> {
                    &&& volume.volume_type == parsed->Ok_0
                    &&& volume.idx.0 == volume_idx
                }
            },
            _ => report is None && final(fs).state == old(fs).state,
        },
{
}

/// A retrieval that is given up leaves the controller idle; nothing else changes.
pub proof fn law_volume_abandoned<const MAX_DIRS: usize, const MAX_FILES: usize>(
    fs: &mut FatFs<MAX_DIRS, MAX_FILES>,
)
    requires
        call_ensures(FatFs::<MAX_DIRS, MAX_FILES>::volume_abandoned, (fs,), ()),
    ensures
        final(fs).buffer == old(fs).buffer,
        final(fs).open_dirs == old(fs).open_dirs,
        final(fs).open_files == old(fs).open_files,
        old(fs).state matches Some(CurrentAsyncOperation::GetVolume { .. }) ==> final(fs).state
            == Some(CurrentAsyncOperation::Idle),
        !(old(fs).state matches Some(CurrentAsyncOperation::GetVolume { .. })) ==> final(fs).state
            == old(fs).state,
{
}

/// Nothing changes when a block was written.
pub proof fn law_block_was_written<const MAX_DIRS: usize, const MAX_FILES: usize>(
    fs: &mut FatFs<MAX_DIRS, MAX_FILES>,
    block: &[u8; 512],
    block_idx: u32,
    status: Result<(), ()>,
)
    requires
        call_ensures(
            FatFs::<MAX_DIRS, MAX_FILES>::write_done,
            (fs, block, block_idx, status),
            (),
        ),
    ensures
        *final(fs) == *old(fs),
{
}

/// A row with the invalid cluster is free.
pub open spec fn free(row: (VolumeIdx, Cluster)) -> bool {
    row.1.0 == 0xFFFF_FFF6
}

/// A row that nothing was recorded in.
pub open spec fn unused_row() -> (VolumeIdx, Cluster) {
    (VolumeIdx(0), Cluster(0xFFFF_FFF6))
}

/// Whether a table has a free row.
pub open spec fn has_free_row(rows: Seq<(VolumeIdx, Cluster)>) -> bool {
    exists|i: int| 0 <= i < rows.len() && free(#[trigger] rows[i])
}

/// Whether a table lists a cluster of a volume.
pub open spec fn lists(rows: Seq<(VolumeIdx, Cluster)>, idx: VolumeIdx, cluster: Cluster) -> bool {
    exists|i: int|
        0 <= i < rows.len() && (#[trigger] rows[i]).0.0 == idx.0 && rows[i].1.0 == cluster.0
}

/// Whether a table differs from an earlier one in that the last of the free rows
/// lists a cluster of a volume.
pub open spec fn last_row_taken(
    before: Seq<(VolumeIdx, Cluster)>,
    after: Seq<(VolumeIdx, Cluster)>,
    idx: VolumeIdx,
    cluster: Cluster,
) -> bool {
    exists|row: int|
        {
            &&& 0 <= row < before.len()
            &&& free(before[row])
            &&& forall|j: int| row < j < before.len() ==> !free(#[trigger] before[j])
            &&& after == #[trigger] before.update(row, (idx, cluster))
        }
}

/// Whether a table differs from an earlier one in that the first of the free rows
/// lists a cluster of a volume.
pub open spec fn first_row_taken(
    before: Seq<(VolumeIdx, Cluster)>,
    after: Seq<(VolumeIdx, Cluster)>,
    idx: VolumeIdx,
    cluster: Cluster,
) -> bool {
    exists|row: int|
        {
            &&& 0 <= row < before.len()
            &&& free(before[row])
            &&& forall|j: int| 0 <= j < row ==> !free(#[trigger] before[j])
            &&& after == #[trigger] before.update(row, (idx, cluster))
        }
}

/// Whether a table differs from an earlier one in that the first row that listed
/// a cluster of a volume, if there was one, is free.
pub open spec fn row_given_up(
    before: Seq<(VolumeIdx, Cluster)>,
    after: Seq<(VolumeIdx, Cluster)>,
    idx: VolumeIdx,
    cluster: Cluster,
) -> bool {
    if lists(before, idx, cluster) {
        exists|row: int|
            {
                &&& 0 <= row < before.len()
                &&& before[row].0.0 == idx.0 && before[row].1.0 == cluster.0
                &&& forall|j: int|
                    0 <= j < row ==> (#[trigger] before[j]).0.0 != idx.0 || before[j].1.0
                        != cluster.0
                &&& after == #[trigger] before.update(row, (idx, Cluster(0xFFFF_FFF6)))
            }
    } else {
        after == before
    }
}

/// The last free row, where there is one.
pub(crate) proof fn lemma_last_row(
    rows: Seq<(VolumeIdx, Cluster)>,
    idx: VolumeIdx,
    cluster: Cluster,
)
    ensures
        last_free(rows) < 0 <==> !has_free_row(rows),
        -1 <= last_free(rows) < rows.len(),
        has_free_row(rows) ==> last_row_taken(
            rows,
            rows.update(last_free(rows), (idx, cluster)),
            idx,
            cluster,
        ),
{
    lemma_last_free(rows);
    let row = last_free(rows);
    if row >= 0 {
        assert(free(rows[row]));
        assert forall|j: int| row < j < rows.len() implies !free(#[trigger] rows[j]) by {
            assert(!is_free(rows[j]));
            if rows[j].1.0 == 0xFFFF_FFF6 {
                assert(rows[j].1 == Cluster(0xFFFF_FFF6));
            }
        }
    } else {
        assert forall|j: int| 0 <= j < rows.len() implies !free(#[trigger] rows[j]) by {
            assert(!is_free(rows[j]));
            if rows[j].1.0 == 0xFFFF_FFF6 {
                assert(rows[j].1 == Cluster(0xFFFF_FFF6));
            }
        }
    }
}

/// The first free row, where there is one.
pub(crate) proof fn lemma_first_row(
    rows: Seq<(VolumeIdx, Cluster)>,
    idx: VolumeIdx,
    cluster: Cluster,
)
    ensures
        first_free(rows, 0) == rows.len() <==> !has_free_row(rows),
        has_free_row(rows) ==> first_row_taken(
            rows,
            rows.update(first_free(rows, 0), (idx, cluster)),
            idx,
            cluster,
        ),
{
    lemma_first_free(rows, 0);
    let row = first_free(rows, 0);
    assert forall|j: int| 0 <= j < row implies !free(#[trigger] rows[j]) by {
        assert(!is_free(rows[j]));
        if rows[j].1.0 == 0xFFFF_FFF6 {
            assert(rows[j].1 == Cluster(0xFFFF_FFF6));
        }
    }
    if row < rows.len() {
        assert(free(rows[row]));
    }
}

/// A table lists an item where the item is in it.
pub(crate) proof fn lemma_lists(
    rows: Seq<(VolumeIdx, Cluster)>,
    idx: VolumeIdx,
    cluster: Cluster,
)
    ensures
        rows.contains((idx, cluster)) <==> lists(rows, idx, cluster),
{
    if rows.contains((idx, cluster)) {
        let i = choose|i: int| 0 <= i < rows.len() && rows[i] == (idx, cluster);
        assert(rows[i].0.0 == idx.0);
    }
    if lists(rows, idx, cluster) {
        let i = choose|i: int|
            0 <= i < rows.len() && (#[trigger] rows[i]).0.0 == idx.0 && rows[i].1.0 == cluster.0;
        assert(rows[i] == (idx, cluster));
    }
}

/// The row that is freed.
pub(crate) proof fn lemma_given_up(
    rows: Seq<(VolumeIdx, Cluster)>,
    idx: VolumeIdx,
    cluster: Cluster,
)
    ensures
        row_given_up(rows, freed(rows, (idx, cluster)), idx, cluster),
{
    lemma_row_of(rows, (idx, cluster), 0);
    lemma_lists(rows, idx, cluster);
    let row = row_of(rows, (idx, cluster), 0);
    if row < rows.len() {
        assert(rows[row] == (idx, cluster));
        assert forall|j: int| 0 <= j < row implies (#[trigger] rows[j]).0.0 != idx.0
            || rows[j].1.0 != cluster.0 by {
            assert(rows[j] != (idx, cluster));
        }
        assert(rows.update(row, (idx, Cluster(0xFFFF_FFF6))) == freed(
            rows,
            (idx, cluster),
        ));
    }
}

/// The root directory of a volume opens, in the first free row, unless it is open
/// or no row is free.
pub proof fn law_root_directory_opens<const MAX_DIRS: usize, const MAX_FILES: usize>(
    fs: &mut FatFs<MAX_DIRS, MAX_FILES>,
    volume: &Volume,
    result: Result<Directory, Error>,
)
    requires
        call_ensures(FatFs::<MAX_DIRS, MAX_FILES>::open_root_dir, (fs, volume), result),
    ensures
        ({
            let rows = old(fs).open_dirs@;
            let open = lists(rows, volume.idx, Cluster(0xFFFF_FFFC));
            &&& result is Ok <==> !open && has_free_row(rows)
            &&& result matches Err(e) ==> {
                &&& *final(fs) == *old(fs)
                &&& e == if open {
                    Error::DirAlreadyOpen
                } else {
                    Error::TooManyOpenDirs
                }
            }
            &&& result matches Ok(dir) ==> {
                &&& dir.cluster.0 == 0xFFFF_FFFC
                &&& dir.entry is None
                &&& first_row_taken(rows, final(fs).open_dirs@, volume.idx, dir.cluster)
            }
            &&& final(fs).open_files == old(fs).open_files
            &&& final(fs).state == old(fs).state
            &&& final(fs).buffer == old(fs).buffer
        }),
{
    lemma_first_row(fs.open_dirs@, volume.idx, Cluster(0xFFFF_FFFC));
    lemma_lists(fs.open_dirs@, volume.idx, Cluster(0xFFFF_FFFC));
}

/// The row that is found is the last of the free ones.
pub proof fn law_free_row_found<const MAX_DIRS: usize, const MAX_FILES: usize>(
    fs: &FatFs<MAX_DIRS, MAX_FILES>,
    dirs: Result<usize, Error>,
    files: Result<usize, Error>,
)
    requires
        call_ensures(FatFs::<MAX_DIRS, MAX_FILES>::check_open_dirs_row, (fs,), dirs),
        call_ensures(FatFs::<MAX_DIRS, MAX_FILES>::get_open_files_row, (fs,), files),
    ensures
        dirs is Ok <==> has_free_row(fs.open_dirs@),
        dirs matches Ok(row) ==> {
            &&& row < MAX_DIRS
            &&& free(fs.open_dirs@[row as int])
            &&& forall|j: int| row < j < MAX_DIRS ==> !free(#[trigger] fs.open_dirs@[j])
        },
        dirs matches Err(e) ==> e == Error::TooManyOpenDirs,
        files is Ok <==> has_free_row(fs.open_files@),
        files matches Ok(row) ==> {
            &&& row < MAX_FILES
            &&& free(fs.open_files@[row as int])
            &&& forall|j: int| row < j < MAX_FILES ==> !free(#[trigger] fs.open_files@[j])
        },
        files matches Err(e) ==> e == Error::TooManyOpenFiles,
{
    lemma_last_row(fs.open_dirs@, VolumeIdx(0), Cluster(0));
    lemma_last_row(fs.open_files@, VolumeIdx(0), Cluster(0));
    lemma_last_free(fs.open_dirs@);
    lemma_last_free(fs.open_files@);
    assert forall|j: int| last_free(fs.open_dirs@) < j < MAX_DIRS implies !free(
        #[trigger] fs.open_dirs@[j],
    ) by {
        assert(!is_free(fs.open_dirs@[j]));
        if fs.open_dirs@[j].1.0 == 0xFFFF_FFF6 {
            assert(fs.open_dirs@[j].1 == Cluster(0xFFFF_FFF6));
        }
    }
    assert forall|j: int| last_free(fs.open_files@) < j < MAX_FILES implies !free(
        #[trigger] fs.open_files@[j],
    ) by {
        assert(!is_free(fs.open_files@[j]));
        if fs.open_files@[j].1.0 == 0xFFFF_FFF6 {
            assert(fs.open_files@[j].1 == Cluster(0xFFFF_FFF6));
        }
    }
}

/// Whether the attributes of an entry mark a directory, which the fifth bit does.
pub open spec fn marks_directory(attributes: Attributes) -> bool {
    attributes.0 / 0x10 % 2 == 1
}

/// Whether the attributes of an entry mark a read-only file, which the first bit
/// does.
pub open spec fn marks_read_only(attributes: Attributes) -> bool {
    attributes.0 % 2 == 1
}

/// The bits of the attributes.
pub(crate) proof fn lemma_marks(attributes: Attributes)
    ensures
        attributes.spec_is_directory() == marks_directory(attributes),
        attributes.spec_is_read_only() == marks_read_only(attributes),
{
    let b = attributes.0;
    assert((b & 0x10 == 0x10) == (b / 0x10 % 2 == 1)) by (bit_vector);
    assert((b & 0x01 == 0x01) == (b % 2 == 1)) by (bit_vector);
}

/// Attributes hold the byte of the entry, and a mark is told by its bit.
pub proof fn law_attributes(
    attributes: Attributes,
    directory: bool,
    read_only: bool,
    value: u8,
    made: Attributes,
)
    requires
        call_ensures(Attributes::is_directory, (attributes,), directory),
        call_ensures(Attributes::is_read_only, (attributes,), read_only),
        call_ensures(Attributes::create_from_fat, (value,), made),
    ensures
        directory <==> marks_directory(attributes),
        read_only <==> marks_read_only(attributes),
        made.0 == value,
{
    lemma_marks(attributes);
}

/// The archive mark, the sixth bit, is set or cleared, and the other marks stay.
pub proof fn law_archive_mark(attributes: &mut Attributes, flag: bool)
    requires
        call_ensures(Attributes::set_archive, (attributes, flag), ()),
    ensures
        final(attributes).0 / 0x20 % 2 == if flag {
            1int
        } else {
            0int
        },
        final(attributes).0 % 0x20 == old(attributes).0 % 0x20,
        final(attributes).0 / 0x40 == old(attributes).0 / 0x40,
{
    let b = old(attributes).0;
    assert((b | 0x20) / 0x20 % 2 == 1 && (b | 0x20) % 0x20 == b % 0x20 && (b | 0x20) / 0x40 == b
        / 0x40) by (bit_vector);
    assert((b & !0x20) / 0x20 % 2 == 0 && (b & !0x20) % 0x20 == b % 0x20 && (b & !0x20) / 0x40 == b
        / 0x40) by (bit_vector);
}

/// A directory opens in the last free row, at the cluster of its entry, if it was
/// found, is a directory and is not open.
pub proof fn law_directory_opens<const MAX_DIRS: usize, const MAX_FILES: usize>(
    fs: &mut FatFs<MAX_DIRS, MAX_FILES>,
    volume: &Volume,
    found: Result<DirEntry, Error>,
    result: Result<Directory, Error>,
)
    requires
        call_ensures(FatFs::<MAX_DIRS, MAX_FILES>::open_dir, (fs, volume, found), result),
    ensures
        ({
            let rows = old(fs).open_dirs@;
            let entry = found->Ok_0;
            &&& result is Ok <==> has_free_row(rows) && found is Ok && marks_directory(
                entry.attributes,
            ) && !lists(rows, volume.idx, entry.cluster)
            &&& result matches Err(e) ==> {
                &&& *final(fs) == *old(fs)
                &&& e == if !has_free_row(rows) {
                    Error::TooManyOpenDirs
                } else if found is Err {
                    found->Err_0
                } else if !marks_directory(entry.attributes) {
                    Error::OpenedDirAsFile
                } else {
                    Error::DirAlreadyOpen
                }
            }
            &&& result matches Ok(dir) ==> {
                &&& dir.cluster == entry.cluster
                &&& dir.entry == Some(entry)
                &&& last_row_taken(rows, final(fs).open_dirs@, volume.idx, entry.cluster)
            }
            &&& final(fs).open_files == old(fs).open_files
            &&& final(fs).state == old(fs).state
            &&& final(fs).buffer == old(fs).buffer
        }),
{
    lemma_last_row(fs.open_dirs@, volume.idx, found->Ok_0.cluster);
    lemma_lists(fs.open_dirs@, volume.idx, found->Ok_0.cluster);
    lemma_marks(found->Ok_0.attributes);
}

/// Closing a directory frees its row, and no other.
pub proof fn law_directory_closes<const MAX_DIRS: usize, const MAX_FILES: usize>(
    fs: &mut FatFs<MAX_DIRS, MAX_FILES>,
    volume: &Volume,
    dir: Directory,
)
    requires
        call_ensures(FatFs::<MAX_DIRS, MAX_FILES>::close_dir, (fs, volume, dir), ()),
    ensures
        row_given_up(old(fs).open_dirs@, final(fs).open_dirs@, volume.idx, dir.cluster),
        final(fs).open_files == old(fs).open_files,
        final(fs).state == old(fs).state,
        final(fs).buffer == old(fs).buffer,
{
    lemma_given_up(fs.open_dirs@, volume.idx, dir.cluster);
}

/// Closing a file frees its row, and no other.
pub proof fn law_file_closes<const MAX_DIRS: usize, const MAX_FILES: usize>(
    fs: &mut FatFs<MAX_DIRS, MAX_FILES>,
    volume: &Volume,
    file: File,
    result: Result<(), Error>,
)
    requires
        call_ensures(FatFs::<MAX_DIRS, MAX_FILES>::close_file, (fs, volume, file), result),
    ensures
        result is Ok,
        row_given_up(old(fs).open_files@, final(fs).open_files@, volume.idx, file.starting_cluster),
        final(fs).open_dirs == old(fs).open_dirs,
        final(fs).state == old(fs).state,
        final(fs).buffer == old(fs).buffer,
{
    lemma_given_up(fs.open_files@, volume.idx, file.starting_cluster);
}

/// A mode with an alternative stands for creation where there is no entry, and
/// for what it does to an existing file where there is one. Any other mode stands
/// for itself.
pub proof fn law_mode_solved(mode: Mode, dir_entry_is_some: bool, solved: Mode)
    requires
        call_ensures(solve_mode_variant, (mode, dir_entry_is_some), solved),
    ensures
        mode == Mode::ReadWriteCreateOrAppend && dir_entry_is_some ==> solved
            == Mode::ReadWriteAppend,
        mode == Mode::ReadWriteCreateOrTruncate && dir_entry_is_some ==> solved
            == Mode::ReadWriteTruncate,
        (mode == Mode::ReadWriteCreateOrAppend || mode == Mode::ReadWriteCreateOrTruncate)
            && !dir_entry_is_some ==> solved == Mode::ReadWriteCreate,
        mode != Mode::ReadWriteCreateOrAppend && mode != Mode::ReadWriteCreateOrTruncate ==> solved
            == mode,
{
}

/// Whether a file is open as its entry says, at a position.
pub open spec fn opened_at(file: File, entry: DirEntry, mode: Mode, position: u32) -> bool {
    &&& file.starting_cluster == entry.cluster
    &&& file.current_cluster.0 == 0
    &&& file.current_cluster.1 == entry.cluster
    &&& file.current_offset == position
    &&& file.length == entry.size
    &&& file.mode == mode
    &&& file.entry == entry
}

/// Whether the file of an entry opens as it should. It does unless no row is
/// free, it is open, it is a directory, it is marked read-only and to be written,
/// or it is to be created although it exists. For reading it opens at its start,
/// for appending at its end; to be truncated it is not open yet.
pub open spec fn entry_opens(
    before: Seq<(VolumeIdx, Cluster)>,
    after: Seq<(VolumeIdx, Cluster)>,
    idx: VolumeIdx,
    entry: DirEntry,
    mode: Mode,
    result: Result<OpenStep, Error>,
) -> bool {
    let appends = mode == Mode::ReadWriteAppend || mode == Mode::ReadWriteCreateOrAppend;
    let truncates = mode == Mode::ReadWriteTruncate || mode == Mode::ReadWriteCreateOrTruncate;
    let protected = marks_read_only(entry.attributes) && mode != Mode::ReadOnly;
    match result {
        Err(e) => {
            &&& after == before
            &&& !has_free_row(before) || lists(before, idx, entry.cluster) || marks_directory(
                entry.attributes,
            ) || protected || mode == Mode::ReadWriteCreate
            &&& e == if !has_free_row(before) {
                Error::TooManyOpenFiles
            } else if lists(before, idx, entry.cluster) {
                Error::FileAlreadyOpen
            } else if marks_directory(entry.attributes) {
                Error::OpenedDirAsFile
            } else if protected {
                Error::ReadOnly
            } else {
                Error::Unsupported
            }
        },
        Ok(step) => {
            &&& has_free_row(before)
            &&& !lists(before, idx, entry.cluster)
            &&& !marks_directory(entry.attributes)
            &&& !protected
            &&& !(step is Create)
            &&& match step {
                OpenStep::Opened(file) => {
                    &&& mode == Mode::ReadOnly || appends
                    &&& mode == Mode::ReadOnly ==> opened_at(file, entry, Mode::ReadOnly, 0)
                    &&& appends ==> opened_at(file, entry, Mode::ReadWriteAppend, entry.size)
                    &&& last_row_taken(before, after, idx, entry.cluster)
                },
                OpenStep::Truncate(file) => {
                    &&& truncates
                    &&& opened_at(file, entry, Mode::ReadWriteTruncate, 0)
                    &&& after == before
                },
                OpenStep::Create(..) => true,
            }
        },
    }
}

/// The file of an entry opens as it should.
pub proof fn law_entry_opens<const MAX_DIRS: usize, const MAX_FILES: usize>(
    fs: &mut FatFs<MAX_DIRS, MAX_FILES>,
    volume: &Volume,
    entry: DirEntry,
    mode: Mode,
    result: Result<OpenStep, Error>,
)
    requires
        call_ensures(
            FatFs::<MAX_DIRS, MAX_FILES>::open_dir_entry,
            (fs, volume, entry, mode),
            result,
        ),
    ensures
        entry_opens(
            old(fs).open_files@,
            final(fs).open_files@,
            volume.idx,
            entry,
            mode,
            result,
        ),
        final(fs).open_dirs == old(fs).open_dirs,
        final(fs).state == old(fs).state,
        final(fs).buffer == old(fs).buffer,
{
    lemma_last_row(fs.open_files@, volume.idx, entry.cluster);
    lemma_lists(fs.open_files@, volume.idx, entry.cluster);
    lemma_marks(entry.attributes);
}

/// A file that was found by its name opens as its entry does, but is not created
/// again. One that was not found is created under its name, with no mark set, if
/// the mode allows that and the name can be stored.
pub proof fn law_file_opens<const MAX_DIRS: usize, const MAX_FILES: usize>(
    fs: &mut FatFs<MAX_DIRS, MAX_FILES>,
    volume: &Volume,
    found: Result<DirEntry, Error>,
    name: &[u8],
    mode: Mode,
    stored: Result<ShortFileName, FilenameError>,
    result: Result<OpenStep, Error>,
)
    requires
        call_ensures(
            FatFs::<MAX_DIRS, MAX_FILES>::open_file_in_dir,
            (fs, volume, found, name, mode),
            result,
        ),
        call_ensures(ShortFileName::create_from_buffer, (name,), stored),
    ensures
        ({
            let rows = old(fs).open_files@;
            let creates = mode == Mode::ReadWriteCreate || mode == Mode::ReadWriteCreateOrTruncate
                || mode == Mode::ReadWriteCreateOrAppend;
            if found is Ok && mode != Mode::ReadWriteCreate {
                entry_opens(rows, final(fs).open_files@, volume.idx, found->Ok_0, mode, result)
            } else {
                &&& final(fs).open_files == old(fs).open_files
                &&& result is Ok <==> has_free_row(rows) && found is Err && creates && stored is Ok
                &&& result matches Ok(step) ==> {
                    &&& step matches OpenStep::Create(file_name, attributes)
                    &&& file_name@ == stored->Ok_0@
                    &&& attributes.0 == 0
                }
                &&& result matches Err(e) ==> e == if !has_free_row(rows) {
                    Error::TooManyOpenFiles
                } else if found is Ok {
                    Error::FileAlreadyExists
                } else if !creates {
                    Error::FileNotFound
                } else {
                    Error::FilenameError
                }
            }
        }),
        final(fs).open_dirs == old(fs).open_dirs,
        final(fs).state == old(fs).state,
        final(fs).buffer == old(fs).buffer,
{
    lemma_last_row(fs.open_files@, volume.idx, found->Ok_0.cluster);
    lemma_lists(fs.open_files@, volume.idx, found->Ok_0.cluster);
    lemma_marks(found->Ok_0.attributes);
}

/// A file whose chain was truncated has length 0, in its entry too; nothing else
/// of it changes.
pub proof fn law_chain_truncated<const MAX_DIRS: usize, const MAX_FILES: usize>(
    file: File,
    truncated: Result<(), Error>,
    result: Result<File, Error>,
)
    requires
        call_ensures(FatFs::<MAX_DIRS, MAX_FILES>::chain_truncated, (file, truncated), result),
    ensures
        truncated matches Err(e) ==> result == Err::<File, Error>(e),
        truncated is Ok ==> {
            &&& result matches Ok(after)
            &&& after.length == 0
            &&& after.entry == (DirEntry { size: 0, ..file.entry })
            &&& after == (File { length: after.length, entry: after.entry, ..file })
        },
{
}

/// A truncated file whose entry was stored is open, in the last free row.
pub proof fn law_entry_stored<const MAX_DIRS: usize, const MAX_FILES: usize>(
    fs: &mut FatFs<MAX_DIRS, MAX_FILES>,
    volume: &Volume,
    file: File,
    stored: Result<(), Error>,
    result: Result<File, Error>,
)
    requires
        call_ensures(
            FatFs::<MAX_DIRS, MAX_FILES>::entry_stored,
            (fs, volume, file, stored),
            result,
        ),
    ensures
        result is Ok <==> stored is Ok && has_free_row(old(fs).open_files@),
        result matches Ok(opened) ==> {
            &&& opened == file
            &&& last_row_taken(
                old(fs).open_files@,
                final(fs).open_files@,
                volume.idx,
                file.starting_cluster,
            )
        },
        result matches Err(e) ==> {
            &&& *final(fs) == *old(fs)
            &&& e == if stored is Err {
                stored->Err_0
            } else {
                Error::TooManyOpenFiles
            }
        },
        final(fs).open_dirs == old(fs).open_dirs,
        final(fs).state == old(fs).state,
        final(fs).buffer == old(fs).buffer,
{
    lemma_last_row(fs.open_files@, volume.idx, file.starting_cluster);
}

/// A file that was created is open at its start, in the last free row.
pub proof fn law_entry_created<const MAX_DIRS: usize, const MAX_FILES: usize>(
    fs: &mut FatFs<MAX_DIRS, MAX_FILES>,
    volume: &Volume,
    created: Result<DirEntry, Error>,
    result: Result<File, Error>,
)
    requires
        call_ensures(FatFs::<MAX_DIRS, MAX_FILES>::entry_created, (fs, volume, created), result),
    ensures
        result is Ok <==> created is Ok && has_free_row(old(fs).open_files@),
        result matches Ok(file) ==> {
            &&& opened_at(file, created->Ok_0, Mode::ReadWriteCreate, 0)
            &&& last_row_taken(
                old(fs).open_files@,
                final(fs).open_files@,
                volume.idx,
                created->Ok_0.cluster,
            )
        },
        result matches Err(e) ==> {
            &&& *final(fs) == *old(fs)
            &&& e == if created is Err {
                created->Err_0
            } else {
                Error::TooManyOpenFiles
            }
        },
        final(fs).open_dirs == old(fs).open_dirs,
        final(fs).state == old(fs).state,
        final(fs).buffer == old(fs).buffer,
{
    lemma_last_row(fs.open_files@, volume.idx, created->Ok_0.cluster);
}

/// A file can be deleted if it was found, is no directory and is not open.
pub proof fn law_file_deleted<const MAX_DIRS: usize, const MAX_FILES: usize>(
    fs: &FatFs<MAX_DIRS, MAX_FILES>,
    volume: &Volume,
    found: Result<DirEntry, Error>,
    result: Result<(), Error>,
)
    requires
        call_ensures(FatFs::<MAX_DIRS, MAX_FILES>::delete_file_in_dir, (fs, volume, found), result),
    ensures
        ({
            let entry = found->Ok_0;
            let directory = marks_directory(entry.attributes);
            let open = lists(fs.open_files@, volume.idx, entry.cluster);
            &&& result is Ok <==> found is Ok && !directory && !open
            &&& result matches Err(e) ==> e == if found is Err {
                found->Err_0
            } else if directory {
                Error::DeleteDirAsFile
            } else {
                Error::FileIsOpen
            }
        }),
{
    lemma_lists(fs.open_files@, volume.idx, found->Ok_0.cluster);
    lemma_marks(found->Ok_0.attributes);
}

/// Something is open as long as a row of either table is not free.
pub proof fn law_open_handles<const MAX_DIRS: usize, const MAX_FILES: usize>(
    fs: &FatFs<MAX_DIRS, MAX_FILES>,
    open: bool,
)
    requires
        call_ensures(FatFs::<MAX_DIRS, MAX_FILES>::has_open_handles, (fs,), open),
    ensures
        !open <==> {
            &&& forall|i: int| 0 <= i < MAX_DIRS ==> free(#[trigger] fs.open_dirs@[i])
            &&& forall|i: int| 0 <= i < MAX_FILES ==> free(#[trigger] fs.open_files@[i])
        },
{
    assert forall|c: Cluster| (#[trigger] c.0 == 0xFFFF_FFF6) implies c == Cluster(0xFFFF_FFF6) by {
    }
}

/// A new controller is idle and has nothing open; a reset closes all that is open
/// and leaves the rest. A row that nothing was recorded in is one of the first
/// volume.
pub proof fn law_nothing_open<const MAX_DIRS: usize, const MAX_FILES: usize>(
    buffer: [u8; 512],
    made: FatFs<MAX_DIRS, MAX_FILES>,
    fs: &mut FatFs<MAX_DIRS, MAX_FILES>,
)
    requires
        call_ensures(FatFs::<MAX_DIRS, MAX_FILES>::new, (buffer,), made),
        call_ensures(FatFs::<MAX_DIRS, MAX_FILES>::reset, (fs,), ()),
    ensures
        made.state == Some(CurrentAsyncOperation::Idle),
        made.buffer == buffer,
        forall|i: int| 0 <= i < MAX_DIRS ==> #[trigger] made.open_dirs@[i] == unused_row(),
        forall|i: int| 0 <= i < MAX_FILES ==> #[trigger] made.open_files@[i] == unused_row(),
        final(fs).state == old(fs).state,
        final(fs).buffer == old(fs).buffer,
        forall|i: int| 0 <= i < MAX_DIRS ==> #[trigger] final(fs).open_dirs@[i] == unused_row(),
        forall|i: int| 0 <= i < MAX_FILES ==> #[trigger] final(fs).open_files@[i] == unused_row(),
{
}

/// A file is at its end where nothing is left of it.
pub proof fn law_end_of_file(file: &File, at_end: bool, left: u32)
    requires
        call_ensures(File::eof, (file,), at_end),
        call_ensures(File::left, (file,), left),
        file.current_offset <= file.length,
    ensures
        file.current_offset + left == file.length,
        at_end <==> left == 0,
{
}

} // verus!
