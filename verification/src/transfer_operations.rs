//! What each step of a transfer does to the file, the buffer and the block, in
//! terms of positions and bytes.
//!
//! Every law here is about a call: `call_ensures` relates the arguments of an
//! operation to what it returned, and the law says what the two have to do with
//! one another.
use crate::data_structures::{Block, BlockIdx, Error, Volume, VolumeType};
use crate::fatfs::FatFs;
use crate::files::{Cluster, DirEntry, File, Mode, Timestamp};
use crate::fs::FatVolume;
use crate::transfer::{
    find_data_on_disk, law_write_runs_to_its_end, write_entry_to_disk, write_run, DataLookup,
    Located, ReadOp, ReadStep, WriteOp, WritePhase, WriteStep,
};
use vstd::prelude::*;

verus! {

/// Whether a block holds the byte at an offset of a file, in the cluster that
/// begins at the offset `start.0`.
pub open spec fn holds_byte(located: Located, start: (u32, Cluster), offset: int) -> bool {
    let blocks = located.num_blocks.0 as int;
    &&& located.cluster == start.1
    &&& blocks * 512 <= offset - start.0 < (blocks + 1) * 512
    &&& located.block_offset == offset % 512
    &&& located.available + located.block_offset == 512
}

/// The place that a search starts at is the last cluster that was used, unless
/// the byte lies before it, and the start of the file then.
pub open spec fn searched_from(
    before: (u32, Cluster),
    first: Cluster,
    offset: int,
    start: (u32, Cluster),
) -> bool {
    if before.0 <= offset {
        start == before
    } else {
        start.0 == 0 && start.1 == first
    }
}

/// The search for a byte asks for the next cluster where the byte lies the size
/// of a cluster of this volume, or more, past the start of the cluster it has
/// come to, and only there. Otherwise it gives the block that holds the byte.
pub proof fn law_search(
    volume: &Volume,
    fat: FatVolume,
    first: Cluster,
    start: &mut (u32, Cluster),
    desired_offset: u32,
    found: DataLookup,
)
    requires
        call_ensures(find_data_on_disk, (volume, first, start, desired_offset), found),
        volume.volume_type == VolumeType::Fat(fat),
    ensures
        searched_from(*old(start), first, desired_offset as int, *final(start)),
        found is NextCluster <==> desired_offset - final(start).0 >= fat.bytes_per_cluster,
        match found {
            DataLookup::NextCluster(cluster) => cluster == final(start).1,
            DataLookup::Found(located) => holds_byte(
                located,
                *final(start),
                desired_offset as int,
            ),
        },
{
}

/// A byte of a cluster lies as many blocks after the first block of the cluster
/// as the search says. The block is read before it is filled unless it is filled
/// from its first byte on.
pub proof fn law_located_block(
    located: &Located,
    first_block: BlockIdx,
    idx: BlockIdx,
    read: bool,
)
    requires
        call_ensures(Located::block_idx, (located, first_block), idx),
        call_ensures(Located::read_before_filling, (located,), read),
    ensures
        idx.0 - first_block.0 == located.num_blocks.0,
        read <==> located.block_offset > 0,
{
}

/// A directory entry takes the 32 bytes at its offset, in order; every other
/// byte of the block stays.
pub proof fn law_entry_in_its_block(entry: &DirEntry, serialized: &[u8; 32], block: &mut Block)
    requires
        call_ensures(write_entry_to_disk, (entry, serialized, block), ()),
        entry.entry_offset + 32 <= 512,
    ensures
        forall|i: int|
            0 <= i < 32 ==> final(block).contents@[entry.entry_offset + i] == #[trigger]
            serialized@[i],
        forall|j: int|
            0 <= j < 512 && !(entry.entry_offset <= j < entry.entry_offset + 32)
                ==> #[trigger] final(block).contents@[j] == old(block).contents@[j],
{
}

/// A read begins with nothing read and the whole buffer free.
pub proof fn law_read_begins<const MAX_DIRS: usize, const MAX_FILES: usize>(
    fs: &FatFs<MAX_DIRS, MAX_FILES>,
    buffer_len: usize,
    op: ReadOp,
)
    requires
        call_ensures(FatFs::<MAX_DIRS, MAX_FILES>::read, (fs, buffer_len), op),
    ensures
        op.read == 0,
        op.space == buffer_len,
{
}

/// A read is done where the buffer is full or the file at its end, and only
/// there. Before that it asks for the next cluster where the position lies the
/// size of a cluster or more past the start of the cluster it has come to, and
/// otherwise for the block at the position. The position does not move.
pub proof fn law_read_next(
    op: &ReadOp,
    volume: &Volume,
    fat: FatVolume,
    file: &mut File,
    step: ReadStep,
)
    requires
        call_ensures(ReadOp::next, (op, volume, file), step),
        volume.volume_type == VolumeType::Fat(fat),
        file.current_offset <= file.length,
    ensures
        step is Done <==> op.space == 0 || old(file).current_offset == old(file).length,
        step is NextCluster <==> {
            &&& !(step is Done)
            &&& old(file).current_offset - final(file).current_cluster.0 >= fat.bytes_per_cluster
        },
        *final(file) == (File { current_cluster: final(file).current_cluster, ..*old(file) }),
        step is Done ==> *final(file) == *old(file),
        !(step is Done) ==> searched_from(
            old(file).current_cluster,
            old(file).starting_cluster,
            old(file).current_offset as int,
            final(file).current_cluster,
        ),
        match step {
            ReadStep::Done(n) => n == op.read,
            ReadStep::NextCluster(cluster) => cluster == final(file).current_cluster.1,
            ReadStep::ReadBlock(located) => holds_byte(
                located,
                final(file).current_cluster,
                old(file).current_offset as int,
            ),
        },
{
}

/// Each cluster of the chain begins where the one before it ends. The position
/// does not move.
pub proof fn law_read_follows_chain(
    volume: &Volume,
    fat: FatVolume,
    file: &mut File,
    next: Result<Cluster, Error>,
    result: Result<(), Error>,
)
    requires
        call_ensures(ReadOp::cluster_found, (volume, file, next), result),
        volume.volume_type == VolumeType::Fat(fat),
        file.current_offset <= file.length,
        file.current_cluster.0 + fat.bytes_per_cluster <= file.current_offset,
    ensures
        *final(file) == (File { current_cluster: final(file).current_cluster, ..*old(file) }),
        match next {
            Ok(cluster) => {
                &&& result is Ok
                &&& final(file).current_cluster.0 - old(file).current_cluster.0
                    == fat.bytes_per_cluster
                &&& final(file).current_cluster.1 == cluster
            },
            Err(e) => {
                &&& result == Err::<(), Error>(e)
                &&& final(file).current_cluster == old(file).current_cluster
            },
        },
{
}

/// Whether `n` is the greatest number within three limits.
pub open spec fn greatest_within(n: int, a: int, b: int, c: int) -> bool {
    &&& n <= a
    &&& n <= b
    &&& n <= c
    &&& n == a || n == b || n == c
}

/// A block delivers the bytes from the position on, up to its end, the end of the
/// buffer or the end of the file. They go behind what was read before, in order,
/// the rest of the buffer stays, and the position moves past them.
pub proof fn law_block_read(op: &mut ReadOp, file: &mut File, buffer: &mut [u8], block: &Block)
    requires
        call_ensures(ReadOp::block_read, (op, file, buffer, block), ()),
        file.current_offset < file.length,
        op.space > 0,
        op.read + op.space == buffer@.len(),
    ensures
        ({
            let n = final(op).read - old(op).read;
            let place = old(file).current_offset as int % 512;
            &&& greatest_within(
                n,
                512 - place,
                old(op).space as int,
                old(file).length - old(file).current_offset,
            )
            &&& final(op).read + final(op).space == old(op).read + old(op).space
            &&& final(file).current_offset == old(file).current_offset + n
            &&& *final(file) == (File {
                current_offset: final(file).current_offset,
                ..*old(file)
            })
            &&& final(buffer)@.len() == old(buffer)@.len()
            &&& forall|i: int|
                #![trigger final(buffer)@[i]]
                0 <= i < old(buffer)@.len() ==> final(buffer)@[i] == if old(op).read <= i
                    < old(op).read + n {
                    block.contents@[place + (i - old(op).read)]
                } else {
                    old(buffer)@[i]
                }
        }),
{
}

/// A write to a file that is open for reading alone is refused, and any other is
/// taken up. A file without a cluster first gets one; in one with a cluster the
/// write sets out from the last cluster that was used, unless that lies before
/// the first of the file.
pub proof fn law_write_begins<const MAX_DIRS: usize, const MAX_FILES: usize>(
    fs: &FatFs<MAX_DIRS, MAX_FILES>,
    file: &mut File,
    buffer_len: usize,
    result: Result<WriteOp, Error>,
)
    requires
        call_ensures(FatFs::<MAX_DIRS, MAX_FILES>::write, (fs, file, buffer_len), result),
        file.current_offset <= file.length,
    ensures
        result is Err <==> old(file).mode == Mode::ReadOnly,
        result matches Err(e) ==> e == Error::ReadOnly && *final(file) == *old(file),
        *final(file) == (File { current_cluster: final(file).current_cluster, ..*old(file) }),
        result matches Ok(op) ==> {
            &&& op.buffer_len == buffer_len
            &&& op.written == 0
            &&& op.phase == if old(file).starting_cluster.0 < 2 {
                WritePhase::AllocateFirst
            } else {
                WritePhase::Walk
            }
            &&& op.phase == WritePhase::AllocateFirst ==> *final(file) == *old(file)
            &&& op.phase == WritePhase::Walk ==> sets_out(*old(file), *final(file), op)
        },
{
}

/// Whether a write of a buffer sets out as it should from a file that has a
/// cluster: to write the whole buffer where the file stays within its greatest
/// size, and up to that size otherwise.
pub open spec fn sets_out(before: File, after: File, op: WriteOp) -> bool {
    &&& before.current_offset + op.buffer_len <= 0xFFFF_FFFF ==> op.to_write == op.buffer_len
    &&& before.current_offset + op.buffer_len > 0xFFFF_FFFF ==> before.current_offset + op.to_write
        == 0xFFFF_FFFF
    &&& op.cluster == after.current_cluster
    &&& if before.current_cluster.1.0 >= before.starting_cluster.0 {
        op.cluster == before.current_cluster
    } else {
        op.cluster.0 == 0 && op.cluster.1 == before.starting_cluster
    }
}

/// A write that is run to its end, on a file that has a cluster, reports the
/// whole buffer where the file stays within its greatest size.
pub proof fn law_write_reports_the_buffer<const MAX_DIRS: usize, const MAX_FILES: usize>(
    fs: &FatFs<MAX_DIRS, MAX_FILES>,
    file: &mut File,
    buffer: Seq<u8>,
    result: Result<WriteOp, Error>,
    blocks: Map<int, Seq<u8>>,
    now: Timestamp,
)
    requires
        call_ensures(
            FatFs::<MAX_DIRS, MAX_FILES>::write,
            (fs, file, buffer.len() as usize),
            result,
        ),
        file.mode != Mode::ReadOnly,
        file.starting_cluster.0 >= 2,
        file.current_offset <= file.length,
        file.length + buffer.len() <= 0xFFFF_FFFF,
    ensures
        result is Ok,
        ({
            let (_, grown, done) = write_run(blocks, *final(file), result->Ok_0, buffer, now);
            &&& done.written == buffer.len()
            &&& grown.length == old(file).length + buffer.len()
            &&& grown.current_offset == old(file).current_offset + buffer.len()
        }),
{
    law_write_runs_to_its_end(blocks, *final(file), result->Ok_0, buffer, now);
}

/// A write asks for a first cluster, or for one more behind the cluster it has
/// come to, where it is to allocate one. It is done where it has written what it
/// set out to write, and reports that. Before that it asks for the next cluster
/// where the position lies the size of a cluster or more past the start of the
/// cluster it has come to, and otherwise for the block at the position.
pub proof fn law_write_next(
    op: &mut WriteOp,
    volume: &Volume,
    fat: FatVolume,
    file: &File,
    step: WriteStep,
)
    requires
        call_ensures(WriteOp::next, (op, volume, file), step),
        volume.volume_type == VolumeType::Fat(fat),
    ensures
        ({
            let walks = old(op).phase == WritePhase::Walk || old(op).phase
                == WritePhase::WalkExtended;
            let left = old(op).written != old(op).to_write;
            &&& *final(op) == (WriteOp { cluster: final(op).cluster, ..*old(op) })
            &&& step is AllocateCluster <==> !walks
            &&& step is Done <==> walks && !left
            &&& step is NextCluster <==> walks && left && file.current_offset
                - final(op).cluster.0 >= fat.bytes_per_cluster
            &&& !(walks && left) ==> final(op).cluster == old(op).cluster
            &&& walks && left ==> searched_from(
                old(op).cluster,
                file.starting_cluster,
                file.current_offset as int,
                final(op).cluster,
            )
            &&& match step {
                WriteStep::Done(n) => n == old(op).to_write,
                WriteStep::AllocateCluster(behind) => if old(op).phase == WritePhase::Extend {
                    behind == Some(old(op).cluster.1)
                } else {
                    behind is None
                },
                WriteStep::NextCluster(cluster) => cluster == final(op).cluster.1,
                WriteStep::WriteBlock(located) => holds_byte(
                    located,
                    final(op).cluster,
                    file.current_offset as int,
                ),
            }
        }),
{
}

/// The first cluster of a file becomes its start, in its directory entry too,
/// and the write sets out from there; without it the write fails. A cluster
/// behind the chain lets the write go on; without it the write ends with what it
/// has written, and does not fail.
pub proof fn law_cluster_allocated(
    op: &mut WriteOp,
    file: &mut File,
    allocated: Result<Cluster, Error>,
    result: Result<(), Error>,
)
    requires
        call_ensures(WriteOp::cluster_allocated, (op, file, allocated), result),
        file.current_offset <= file.length,
    ensures
        old(op).phase == WritePhase::AllocateFirst ==> match allocated {
            Ok(cluster) => {
                let started = File { starting_cluster: cluster, ..*old(file) };
                &&& result is Ok
                &&& final(op).phase == WritePhase::Walk
                &&& final(op).buffer_len == old(op).buffer_len
                &&& final(op).written == 0
                &&& sets_out(started, *final(file), *final(op))
                &&& *final(file) == (File {
                    current_cluster: final(file).current_cluster,
                    entry: DirEntry { cluster, ..old(file).entry },
                    ..started
                })
            },
            Err(e) => {
                &&& result == Err::<(), Error>(e)
                &&& *final(op) == *old(op)
                &&& *final(file) == *old(file)
            },
        },
        old(op).phase == WritePhase::Extend ==> {
            &&& result is Ok
            &&& *final(file) == *old(file)
            &&& allocated is Ok ==> *final(op) == (WriteOp {
                phase: WritePhase::WalkExtended,
                ..*old(op)
            })
            &&& allocated is Err ==> *final(op) == (WriteOp {
                phase: WritePhase::Walk,
                to_write: old(op).written,
                ..*old(op)
            })
        },
{
}

/// Each cluster of the chain begins where the one before it ends. Where the
/// chain ends it is to be extended, once; where it still ends after that the
/// allocation failed. Any other error ends the write.
pub proof fn law_write_follows_chain(
    op: &mut WriteOp,
    volume: &Volume,
    fat: FatVolume,
    file: &File,
    next: Result<Cluster, Error>,
    result: Result<(), Error>,
)
    requires
        call_ensures(WriteOp::cluster_found, (op, volume, file, next), result),
        volume.volume_type == VolumeType::Fat(fat),
        op.phase == WritePhase::Walk || op.phase == WritePhase::WalkExtended,
        file.current_offset <= file.length,
        op.cluster.0 + fat.bytes_per_cluster <= file.current_offset,
    ensures
        final(op).to_write == old(op).to_write,
        final(op).written == old(op).written,
        final(op).buffer_len == old(op).buffer_len,
        match next {
            Ok(cluster) => {
                &&& result is Ok
                &&& final(op).phase == old(op).phase
                &&& final(op).cluster.0 - old(op).cluster.0 == fat.bytes_per_cluster
                &&& final(op).cluster.1 == cluster
            },
            Err(e) => {
                let extends = old(op).phase == WritePhase::Walk && e == Error::EndOfFile;
                &&& final(op).cluster == old(op).cluster
                &&& result is Ok <==> extends
                &&& final(op).phase == if extends {
                    WritePhase::Extend
                } else {
                    old(op).phase
                }
                &&& old(op).phase == WritePhase::WalkExtended ==> result == Err::<(), Error>(
                    Error::AllocationError,
                )
                &&& old(op).phase == WritePhase::Walk && !extends ==> result == Err::<(), Error>(e)
            },
        },
{
}

/// A block takes the bytes that were not written yet, from the position on, up
/// to its end; the rest of the block stays.
pub proof fn law_block_filled(
    op: &WriteOp,
    file: &File,
    buffer: &[u8],
    block: &mut Block,
    n: u32,
)
    requires
        call_ensures(WriteOp::bytes_for_block, (op, file), n),
        call_ensures(WriteOp::fill_block, (op, file, buffer, block), ()),
        op.written <= op.to_write <= op.buffer_len,
        op.buffer_len == buffer@.len(),
    ensures
        ({
            let place = file.current_offset as int % 512;
            let left = op.to_write - op.written;
            &&& greatest_within(n as int, 512 - place, left, left)
            &&& forall|j: int|
                #![trigger final(block).contents@[j]]
                0 <= j < 512 ==> final(block).contents@[j] == if place <= j < place + n {
                    buffer@[op.written + (j - place)]
                } else {
                    old(block).contents@[j]
                }
        }),
{
}

/// Once a block is written, the bytes that it took are written, the position is
/// behind them, and the file, in its directory entry too, is longer by as many.
/// The entry carries the time and the archive mark, and nothing else of it
/// changes.
pub proof fn law_block_written(op: &mut WriteOp, file: &mut File, now: Timestamp, n: int)
    requires
        call_ensures(WriteOp::block_written, (op, file, now), ()),
        op.written <= op.to_write <= op.buffer_len,
        file.current_offset <= file.length,
        op.to_write - op.written <= 0xFFFF_FFFF - file.current_offset,
        greatest_within(
            n,
            512 - file.current_offset as int % 512,
            op.to_write - op.written,
            op.to_write - op.written,
        ),
        file.length + n <= 0xFFFF_FFFF,
    ensures
        ({
            &&& final(op).written - old(op).written == n
            &&& *final(op) == (WriteOp {
                phase: WritePhase::Walk,
                written: final(op).written,
                ..*old(op)
            })
            &&& final(file).current_offset == old(file).current_offset + n
            &&& final(file).length == old(file).length + n
            &&& final(file).entry.size == final(file).length
            &&& final(file).entry.mtime == now
            &&& final(file).entry.attributes.0 == old(file).entry.attributes.0 | 0x20
            &&& *final(file) == (File {
                current_cluster: old(op).cluster,
                current_offset: final(file).current_offset,
                length: final(file).length,
                entry: DirEntry {
                    size: final(file).entry.size,
                    mtime: final(file).entry.mtime,
                    attributes: final(file).entry.attributes,
                    ..old(file).entry
                },
                ..*old(file)
            })
        }),
{
}

/// Every step of a read can be made where its turn comes: on a volume with
/// clusters, a file that is at one of its bytes, and a buffer with room.
pub proof fn law_read_is_possible(
    op: &mut ReadOp,
    volume: &Volume,
    fat: FatVolume,
    first: Cluster,
    start: &mut (u32, Cluster),
    file: &mut File,
    buffer: &mut [u8],
    block: &Block,
    next: Result<Cluster, Error>,
    offset: u32,
)
    requires
        volume.volume_type == VolumeType::Fat(fat),
        fat.bytes_per_cluster > 0,
        file.current_offset < file.length,
        op.space > 0,
        op.read + op.space == buffer@.len(),
    ensures
        call_requires(find_data_on_disk, (volume, first, old(start), offset)),
        call_requires(ReadOp::next, (&*old(op), volume, old(file))),
        old(file).current_cluster.0 + fat.bytes_per_cluster <= old(file).current_offset
            ==> call_requires(ReadOp::cluster_found, (volume, old(file), next)),
        call_requires(ReadOp::block_read, (old(op), old(file), old(buffer), block)),
{
}

/// Every step of a write can be made where its turn comes: on a volume with
/// clusters, while the write has not come further than it set out to and the file
/// stays within its greatest size.
pub proof fn law_write_is_possible<const MAX_DIRS: usize, const MAX_FILES: usize>(
    fs: &FatFs<MAX_DIRS, MAX_FILES>,
    op: &mut WriteOp,
    volume: &Volume,
    fat: FatVolume,
    file: &mut File,
    buffer: &[u8],
    block: &mut Block,
    allocated: Result<Cluster, Error>,
    next: Result<Cluster, Error>,
    now: Timestamp,
)
    requires
        volume.volume_type == VolumeType::Fat(fat),
        fat.bytes_per_cluster > 0,
        file.current_offset <= file.length,
        op.buffer_len == buffer@.len(),
        op.written <= op.to_write <= op.buffer_len,
        op.to_write - op.written <= 0xFFFF_FFFF - file.current_offset,
    ensures
        call_requires(FatFs::<MAX_DIRS, MAX_FILES>::write, (fs, old(file), old(op).buffer_len)),
        call_requires(WriteOp::next, (old(op), volume, &*old(file))),
        old(op).phase == WritePhase::AllocateFirst || old(op).phase == WritePhase::Extend
            ==> call_requires(WriteOp::cluster_allocated, (old(op), old(file), allocated)),
        old(op).phase == WritePhase::Walk || old(op).phase == WritePhase::WalkExtended ==> {
            &&& old(op).cluster.0 + fat.bytes_per_cluster <= old(file).current_offset
                ==> call_requires(WriteOp::cluster_found, (old(op), volume, &*old(file), next))
            &&& call_requires(WriteOp::bytes_for_block, (&*old(op), &*old(file)))
            &&& call_requires(
                WriteOp::fill_block,
                (&*old(op), &*old(file), buffer, old(block)),
            )
            &&& old(file).length + (old(op).to_write - old(op).written) <= 0xFFFF_FFFF
                ==> call_requires(WriteOp::block_written, (old(op), old(file), now))
        },
{
}

/// A directory entry can be written where its 32 bytes are within its block.
pub proof fn law_entry_write_is_possible(entry: &DirEntry, serialized: &[u8; 32], block: &mut Block)
    requires
        entry.entry_offset <= 480,
    ensures
        call_requires(write_entry_to_disk, (entry, serialized, old(block))),
{
}

} // verus!
