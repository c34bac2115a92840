//! What holds of the filesystem driver across system calls.
use crate::data_structures::{BlockIdx, Error, Volume, VolumeIdx};
use crate::driver::{
    awaits_dir, awaits_file, commanded, dir_closed, dir_opened, file_closed, file_recorded,
    file_stepped, first_none, init_begun, init_failed, is_taken, new_dir_descriptor, reservation,
    root_dir_opened, was_reset, CommandReturn, CommandStep, DirSearch, FatFsDriver, FileSearch,
    FileStep, ProcessId, SharedName, CMD_DONE, CMD_INIT, MAX_DIRS,
};
use crate::error_code::ErrorCode;
use crate::fatfs::{is_file_outcome, CurrentAsyncOperation, OpenStep};
use crate::files::{Cluster, DirEntry, Directory, File};
use crate::handles::{
    first_free, freed, is_free, is_open, last_free, law_closing, law_closing_undoes_opening,
    law_opening_keeps_items_unique, lemma_first_free, lemma_last_free, no_item_twice,
};
use vstd::prelude::*;

verus! {

/// A process without the reservation changes nothing, but by INIT while nobody
/// has the reservation.
pub proof fn law_only_the_reserving_process_is_served(
    before: FatFsDriver,
    command_num: usize,
    r2: usize,
    r3: usize,
    process_id: ProcessId,
    name: SharedName,
    after: FatFsDriver,
    step: CommandStep,
)
    requires
        commanded(before, command_num, r2, r3, process_id, name, after, step),
        before.current_process != Some(process_id),
        before.current_process is Some || command_num != CMD_INIT,
    ensures
        after == before,
        step matches CommandStep::Return(CommandReturn::Failure(_)),
{
}

/// A reservation lasts until the process that has it is done.
pub proof fn law_reservation_lasts(
    before: FatFsDriver,
    command_num: usize,
    r2: usize,
    r3: usize,
    process_id: ProcessId,
    name: SharedName,
    after: FatFsDriver,
    step: CommandStep,
)
    requires
        commanded(before, command_num, r2, r3, process_id, name, after, step),
        before.current_process is Some,
        before.current_process != Some(process_id) || command_num != CMD_DONE,
    ensures
        after.current_process == before.current_process,
        after.volume == before.volume,
{
}

/// When the process that has the reservation is done, nothing is open any more
/// and any process may start to reserve the driver.
pub proof fn law_done_releases_the_driver(
    before: FatFsDriver,
    r2: usize,
    r3: usize,
    process_id: ProcessId,
    name: SharedName,
    after: FatFsDriver,
    step: CommandStep,
    next_process_id: ProcessId,
    partition_index: usize,
    later: FatFsDriver,
    result: Result<BlockIdx, ErrorCode>,
)
    requires
        commanded(before, CMD_DONE, r2, r3, process_id, name, after, step),
        before.current_process == Some(process_id),
        before.fatfs matches Some(fs) && fs.state == Some(CurrentAsyncOperation::Idle),
        init_begun(after, next_process_id, partition_index, later, result),
    ensures
        step == CommandStep::Return(CommandReturn::Success),
        reservation(after, next_process_id) == Err::<(), ErrorCode>(ErrorCode::RESERVE),
        after.directories matches Some(dirs) ==> forall|id: int| !is_taken(dirs@, id),
        after.files matches Some(files) ==> forall|id: int| !is_taken(files@, id),
        result == Ok::<BlockIdx, ErrorCode>(BlockIdx(0)),
{
}

/// When INIT fails, whatever the reason, the next INIT can start.
pub proof fn law_init_can_be_repeated(
    before: FatFsDriver,
    process_id: ProcessId,
    partition_index: usize,
    begun: FatFsDriver,
    next_process_id: ProcessId,
    next_partition_index: usize,
    after: FatFsDriver,
    result: Result<BlockIdx, ErrorCode>,
)
    requires
        before.current_process is None,
        init_begun(before, process_id, partition_index, begun, Ok(BlockIdx(0))),
        init_begun(
            init_failed(begun),
            next_process_id,
            next_partition_index,
            after,
            result,
        ),
    ensures
        init_failed(begun) == before,
        result == Ok::<BlockIdx, ErrorCode>(BlockIdx(0)),
{
}

/// A new descriptor is the lowest that is free.
pub proof fn law_descriptors_are_the_lowest(
    driver: FatFsDriver,
    parent_dir_id: usize,
    name: SharedName,
)
    requires
        new_dir_descriptor(driver, parent_dir_id, name) is Ok,
    ensures
        ({
            let table = driver.directories->0@;
            let new_dir_id = new_dir_descriptor(driver, parent_dir_id, name)->Ok_0;
            &&& new_dir_id < MAX_DIRS
            &&& !is_taken(table, new_dir_id as int)
            &&& forall|id: int| 0 <= id < new_dir_id ==> is_taken(table, id)
        }),
{
    lemma_first_none(driver.directories->0@, 0);
}

/// Where `first_none` lies.
proof fn lemma_first_none<T>(table: Seq<Option<T>>, from: int)
    requires
        0 <= from <= table.len(),
    ensures
        from <= first_none(table, from) <= table.len(),
        forall|id: int| from <= id < first_none(table, from) ==> (#[trigger] table[id]) is Some,
        first_none(table, from) < table.len() ==> table[first_none(table, from)] is None,
    decreases table.len() - from,
{
    if from < table.len() && table[from] is Some {
        lemma_first_none(table, from + 1);
    }
}

/// The clusters of the directories that have a descriptor.
pub open spec fn dir_clusters(table: Seq<Option<Directory>>) -> Seq<Option<Cluster>> {
    Seq::new(
        table.len(),
        |id: int|
            match table[id] {
                Some(dir) => Some(dir.cluster),
                None => None,
            },
    )
}

/// The clusters of the files that have a descriptor.
pub open spec fn file_clusters(table: Seq<Option<File>>) -> Seq<Option<Cluster>> {
    Seq::new(
        table.len(),
        |id: int|
            match table[id] {
                Some(file) => Some(file.starting_cluster),
                None => None,
            },
    )
}

/// Whether descriptors and the table of the controller go together: what has a
/// descriptor is recorded as open, and nothing is open twice.
pub open spec fn consistent(
    clusters: Seq<Option<Cluster>>,
    rows: Seq<(VolumeIdx, Cluster)>,
    idx: VolumeIdx,
) -> bool {
    &&& no_item_twice(rows)
    &&& forall|id: int|
        #![trigger clusters[id]]
        is_taken(clusters, id) ==> is_open(rows, (idx, clusters[id]->0))
    &&& forall|i: int, j: int|
        #![trigger clusters[i], clusters[j]]
        is_taken(clusters, i) && is_taken(clusters, j) && i != j ==> clusters[i] != clusters[j]
}

/// Whether the directories that have a descriptor are open in the controller.
pub open spec fn dirs_consistent(driver: FatFsDriver) -> bool {
    driver.directories matches Some(dirs) ==> driver.fatfs matches Some(fs)
        ==> driver.volume matches Some(volume) ==> consistent(
        dir_clusters(dirs@),
        fs.open_dirs@,
        volume.idx,
    )
}

/// Whether the files that have a descriptor are open in the controller.
pub open spec fn files_consistent(driver: FatFsDriver) -> bool {
    driver.files matches Some(files) ==> driver.fatfs matches Some(fs)
        ==> driver.volume matches Some(volume) ==> consistent(
        file_clusters(files@),
        fs.open_files@,
        volume.idx,
    )
}

/// Recording something that is not open yet keeps the tables together.
proof fn lemma_opening(
    clusters: Seq<Option<Cluster>>,
    rows: Seq<(VolumeIdx, Cluster)>,
    idx: VolumeIdx,
    id: int,
    row: int,
    cluster: Cluster,
)
    requires
        consistent(clusters, rows, idx),
        0 <= id < clusters.len(),
        clusters[id] is None,
        0 <= row < rows.len(),
        is_free(rows[row]),
        cluster != Cluster(Cluster::INVALID),
        !rows.contains((idx, cluster)),
    ensures
        consistent(clusters.update(id, Some(cluster)), rows.update(row, (idx, cluster)), idx),
{
    let item = (idx, cluster);
    let after = rows.update(row, item);
    let now = clusters.update(id, Some(cluster));
    law_opening_keeps_items_unique(rows, row, item);
    assert(after[row] == item);
    assert forall|i: int|
        #![trigger now[i]]
        is_taken(now, i) implies is_open(after, (idx, now[i]->0)) by {
        if i != id {
            assert(now[i] == clusters[i]);
            let other = (idx, clusters[i]->0);
            let k = choose|k: int| 0 <= k < rows.len() && rows[k] == other;
            assert(after[k] == other);
        }
    }
    assert forall|i: int, j: int|
        #![trigger now[i], now[j]]
        is_taken(now, i) && is_taken(now, j) && i != j implies now[i] != now[j] by {
        if i != id {
            assert(now[i] == clusters[i]);
            assert(rows.contains((idx, clusters[i]->0)));
        }
        if j != id {
            assert(now[j] == clusters[j]);
            assert(rows.contains((idx, clusters[j]->0)));
        }
    }
}

/// Closing something keeps the tables together.
proof fn lemma_closing(
    clusters: Seq<Option<Cluster>>,
    rows: Seq<(VolumeIdx, Cluster)>,
    idx: VolumeIdx,
    id: int,
)
    requires
        consistent(clusters, rows, idx),
        is_taken(clusters, id),
    ensures
        consistent(clusters.update(id, None), freed(rows, (idx, clusters[id]->0)), idx),
        !is_open(freed(rows, (idx, clusters[id]->0)), (idx, clusters[id]->0)),
{
    let item = (idx, clusters[id]->0);
    let after = freed(rows, item);
    let now = clusters.update(id, None);
    law_closing(rows, item, item);
    assert forall|i: int|
        #![trigger now[i]]
        is_taken(now, i) implies is_open(after, (idx, now[i]->0)) by {
        assert(now[i] == clusters[i]);
        assert(clusters[i] != clusters[id]);
        law_closing(rows, item, (idx, clusters[i]->0));
    }
    assert forall|i: int, j: int|
        #![trigger now[i], now[j]]
        is_taken(now, i) && is_taken(now, j) && i != j implies now[i] != now[j] by {
        assert(now[i] == clusters[i] && now[j] == clusters[j]);
    }
}

/// Opening the root directory keeps directory descriptors and the table of the
/// controller together.
pub proof fn law_open_root_dir_keeps_tables_together(
    before: FatFsDriver,
    after: FatFsDriver,
    result: Result<u32, ErrorCode>,
)
    requires
        dirs_consistent(before),
        root_dir_opened(before, after, result),
    ensures
        dirs_consistent(after),
        result is Ok ==> result == Ok::<u32, ErrorCode>(0) && is_taken(after.directories->0@, 0),
{
    if result is Ok {
        let rows = before.fatfs->0.open_dirs@;
        let idx = before.volume->0.idx;
        let table = before.directories->0@;
        let root = Cluster(Cluster::ROOT_DIR);
        lemma_first_free(rows, 0);
        lemma_opening(dir_clusters(table), rows, idx, 0, first_free(rows, 0), root);
        assert(dir_clusters(after.directories->0@) =~= dir_clusters(table).update(0, Some(root)));
    }
}

/// Opening a directory keeps directory descriptors and the table of the
/// controller together.
pub proof fn law_opendir_keeps_tables_together(
    before: FatFsDriver,
    search: DirSearch,
    found: Result<DirEntry, Error>,
    after: FatFsDriver,
    result: Result<u32, ErrorCode>,
)
    requires
        dirs_consistent(before),
        awaits_dir(before, search),
        dir_opened(before, search, found, after, result),
        found matches Ok(entry) ==> entry.cluster != Cluster(Cluster::INVALID),
    ensures
        dirs_consistent(after),
        result is Ok ==> result == Ok::<u32, ErrorCode>(search.new_dir_id as u32) && is_taken(
            after.directories->0@,
            search.new_dir_id as int,
        ),
{
    if result is Ok {
        let rows = before.fatfs->0.open_dirs@;
        let idx = before.volume->0.idx;
        let table = before.directories->0@;
        let id = search.new_dir_id as int;
        let cluster = found->Ok_0.cluster;
        lemma_last_free(rows);
        lemma_opening(dir_clusters(table), rows, idx, id, last_free(rows), cluster);
        assert(dir_clusters(after.directories->0@) =~= dir_clusters(table).update(
            id,
            Some(cluster),
        ));
    }
}

/// Closing a directory keeps directory descriptors and the table of the
/// controller together, and the directory is no longer open.
pub proof fn law_close_dir_keeps_tables_together(
    before: FatFsDriver,
    dir_id: usize,
    after: FatFsDriver,
    result: Result<(), ErrorCode>,
)
    requires
        dirs_consistent(before),
        dir_closed(before, dir_id, after, result),
    ensures
        dirs_consistent(after),
        result is Ok ==> {
            &&& !is_taken(after.directories->0@, dir_id as int)
            &&& !is_open(
                after.fatfs->0.open_dirs@,
                (before.volume->0.idx, before.directories->0@[dir_id as int]->0.cluster),
            )
        },
{
    if result is Ok {
        let rows = before.fatfs->0.open_dirs@;
        let idx = before.volume->0.idx;
        let table = before.directories->0@;
        lemma_closing(dir_clusters(table), rows, idx, dir_id as int);
        assert(dir_clusters(after.directories->0@) =~= dir_clusters(table).update(
            dir_id as int,
            None,
        ));
    }
}

/// Closing a directory undoes its opening: the descriptors are as before, and
/// the same directories are open.
pub proof fn law_close_dir_undoes_opendir(
    before: FatFsDriver,
    search: DirSearch,
    found: Result<DirEntry, Error>,
    opened: FatFsDriver,
    id: u32,
    after: FatFsDriver,
    result: Result<(), ErrorCode>,
    other: (VolumeIdx, Cluster),
)
    requires
        dirs_consistent(before),
        awaits_dir(before, search),
        dir_opened(before, search, found, opened, Ok(id)),
        dir_closed(opened, id as usize, after, result),
    ensures
        result is Ok,
        after.directories->0@ == before.directories->0@,
        is_open(after.fatfs->0.open_dirs@, other) == is_open(before.fatfs->0.open_dirs@, other),
{
    let rows = before.fatfs->0.open_dirs@;
    let idx = before.volume->0.idx;
    lemma_last_free(rows);
    law_closing_undoes_opening(rows, last_free(rows), (idx, found->Ok_0.cluster), other);
}

/// Recording a file that is not open yet keeps file descriptors and the table
/// of the controller together. A file that was just created can share its
/// cluster with an open one, and is left out if so.
pub proof fn law_open_file_keeps_tables_together(
    before: FatFsDriver,
    search: FileSearch,
    file: File,
    after: FatFsDriver,
)
    requires
        files_consistent(before),
        awaits_file(before, search),
        last_free(before.fatfs->0.open_files@) >= 0,
        file_recorded(before, search, file, after),
        file.starting_cluster != Cluster(Cluster::INVALID),
        !before.fatfs->0.open_files@.contains((before.volume->0.idx, file.starting_cluster)),
    ensures
        files_consistent(after),
        is_taken(after.files->0@, search.new_file_id as int),
{
    let rows = before.fatfs->0.open_files@;
    let idx = before.volume->0.idx;
    let table = before.files->0@;
    let id = search.new_file_id as int;
    lemma_last_free(rows);
    lemma_opening(file_clusters(table), rows, idx, id, last_free(rows), file.starting_cluster);
    assert(file_clusters(after.files->0@) =~= file_clusters(table).update(
        id,
        Some(file.starting_cluster),
    ));
}

/// The search for a file, when it ends with the file open, keeps file
/// descriptors and the table of the controller together.
pub proof fn law_file_found_keeps_tables_together(
    before: FatFsDriver,
    search: FileSearch,
    found: Result<DirEntry, Error>,
    outcome: Result<OpenStep, Error>,
    after: FatFsDriver,
    result: Result<FileStep, ErrorCode>,
)
    requires
        files_consistent(before),
        awaits_file(before, search),
        is_file_outcome(
            before.fatfs->0.open_files@,
            before.volume->0.idx,
            found,
            before.filename_buffer->0@,
            search.mode,
            outcome,
        ),
        file_stepped(before, search, outcome, after, result),
        found matches Ok(entry) ==> entry.cluster != Cluster(Cluster::INVALID),
    ensures
        files_consistent(after),
        result matches Ok(FileStep::Opened(_)) ==> is_taken(
            after.files->0@,
            search.new_file_id as int,
        ),
{
    if let Ok(OpenStep::Opened(file)) = outcome {
        law_open_file_keeps_tables_together(before, search, file, after);
    }
}

/// Closing a file keeps file descriptors and the table of the controller
/// together, and the file is no longer open.
pub proof fn law_close_file_keeps_tables_together(
    before: FatFsDriver,
    file_id: usize,
    after: FatFsDriver,
    result: Result<(), ErrorCode>,
)
    requires
        files_consistent(before),
        file_closed(before, file_id, after, result),
    ensures
        files_consistent(after),
        result is Ok ==> {
            &&& !is_taken(after.files->0@, file_id as int)
            &&& !is_open(
                after.fatfs->0.open_files@,
                (before.volume->0.idx, before.files->0@[file_id as int]->0.starting_cluster),
            )
        },
{
    if result is Ok {
        let rows = before.fatfs->0.open_files@;
        let idx = before.volume->0.idx;
        let table = before.files->0@;
        lemma_closing(file_clusters(table), rows, idx, file_id as int);
        assert(file_clusters(after.files->0@) =~= file_clusters(table).update(
            file_id as int,
            None,
        ));
    }
}

/// Closing a file undoes its opening: the descriptors are as before, and the
/// same files are open.
pub proof fn law_close_file_undoes_open_file(
    before: FatFsDriver,
    search: FileSearch,
    file: File,
    opened: FatFsDriver,
    after: FatFsDriver,
    result: Result<(), ErrorCode>,
    other: (VolumeIdx, Cluster),
)
    requires
        files_consistent(before),
        awaits_file(before, search),
        last_free(before.fatfs->0.open_files@) >= 0,
        file_recorded(before, search, file, opened),
        !before.fatfs->0.open_files@.contains((before.volume->0.idx, file.starting_cluster)),
        file_closed(opened, search.new_file_id, after, result),
    ensures
        result is Ok,
        after.files->0@ == before.files->0@,
        is_open(after.fatfs->0.open_files@, other) == is_open(before.fatfs->0.open_files@, other),
{
    let rows = before.fatfs->0.open_files@;
    let idx = before.volume->0.idx;
    lemma_last_free(rows);
    law_closing_undoes_opening(rows, last_free(rows), (idx, file.starting_cluster), other);
}

/// A driver without a reservation starts with consistent tables once a volume
/// is there: resetting leaves nothing open.
pub proof fn law_reset_leaves_tables_together(
    before: FatFsDriver,
    after: FatFsDriver,
    volume: Volume,
)
    requires
        was_reset(before, after),
        before.fatfs is Some,
    ensures
        dirs_consistent(FatFsDriver { volume: Some(volume), ..after }),
        files_consistent(FatFsDriver { volume: Some(volume), ..after }),
{
    if after.directories is Some {
        let clusters = dir_clusters(after.directories->0@);
        assert(forall|id: int| !is_taken(clusters, id));
    }
    if after.files is Some {
        let clusters = file_clusters(after.files->0@);
        assert(forall|id: int| !is_taken(clusters, id));
    }
}

} // verus!
