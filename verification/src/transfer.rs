//! Reading and writing the contents of open files.
//!
//! A transfer goes block by block. Between two blocks it may have to follow
//! the cluster chain of the file, and for that it asks for the next cluster;
//! whoever runs the transfer looks that up and hands it back.
use crate::data_structures::{zero_block, Block, BlockCount, BlockIdx, Error, Volume, VolumeType};
use crate::fatfs::FatFs;
use crate::files::{Attributes, Cluster, DirEntry, File, Mode, Timestamp, MAX_FILE_SIZE};
use crate::fs::RESERVED_ENTRIES;
use vstd::prelude::*;

verus! {

/// Where a byte of a file lies on the disk.
#[derive(Debug, Copy, Clone, PartialEq, Eq, Structural)]
pub struct Located {
    /// The cluster that holds the byte.
    pub cluster: Cluster,
    /// The number of blocks between the start of the cluster and the block
    /// that holds the byte.
    pub num_blocks: BlockCount,
    /// The place of the byte in its block.
    pub block_offset: usize,
    /// The number of bytes from there to the end of the block.
    pub available: usize,
}

/// A step of the search for a byte of a file.
#[derive(Debug, Copy, Clone, PartialEq, Eq, Structural)]
pub enum DataLookup {
    /// The byte lies beyond this cluster: the next one in the chain is needed.
    NextCluster(Cluster),
    /// The byte was found.
    Found(Located),
}

/// The size of the clusters of a volume.
pub open spec fn cluster_size(volume: Volume) -> u32 {
    match volume.volume_type {
        VolumeType::Fat(fat) => fat.bytes_per_cluster,
    }
}

/// A step of the search for the byte at `desired_offset`, from a cluster that
/// begins at the offset `start.0`.
pub open spec fn lookup(size: u32, start: (u32, Cluster), desired_offset: u32) -> DataLookup {
    if desired_offset - start.0 >= size {
        DataLookup::NextCluster(start.1)
    } else {
        DataLookup::Found(
            Located {
                cluster: start.1,
                num_blocks: BlockCount(((desired_offset - start.0) / 512) as u32),
                block_offset: (desired_offset % 512) as usize,
                available: (512 - desired_offset % 512) as usize,
            },
        )
    }
}

/// Where the search for a byte starts: at the last cluster that was read, unless
/// that lies behind the byte, and at the start of the file then.
pub open spec fn search_start(first: Cluster, start: (u32, Cluster), desired_offset: u32) -> (
    u32,
    Cluster,
) {
    if desired_offset < start.0 {
        (0, first)
    } else {
        start
    }
}

/// The position one cluster further in the chain.
pub open spec fn one_cluster_on(size: u32, start: (u32, Cluster), next: Cluster) -> (u32, Cluster) {
    ((start.0 + size) as u32, next)
}

/// The position after following a chain of clusters.
pub open spec fn along_chain(size: u32, start: (u32, Cluster), chain: Seq<Cluster>) -> (u32, Cluster)
    decreases chain.len(),
{
    if chain.len() == 0 {
        start
    } else {
        one_cluster_on(size, along_chain(size, start, chain.drop_last()), chain.last())
    }
}

/// The size of the clusters of a volume.
pub(crate) fn bytes_per_cluster(volume: &Volume) -> (size: u32)
    ensures
        size == cluster_size(*volume),
{
    match volume.volume_type {
        VolumeType::Fat(fat) => fat.bytes_per_cluster,
    }
}

/// This function turns `desired_offset` into an appropriate block to be
/// read. It either calculates this based on the start of the file, or
/// from the last cluster we read - whichever is better.
pub fn find_data_on_disk(
    volume: &Volume,
    first: Cluster,
    start: &mut (u32, Cluster),
    desired_offset: u32,
) -> (found: DataLookup)
    requires
        cluster_size(*volume) > 0,
    ensures
        *final(start) == search_start(first, *old(start), desired_offset),
        found == lookup(cluster_size(*volume), *final(start), desired_offset),
{
    if desired_offset < start.0 {
        // Back to the start of the file
        *start = (0, first);
    }
    let bytes_per_cluster: u32 = bytes_per_cluster(volume);
    let offset_from_cluster: u32 = desired_offset - start.0;
    if offset_from_cluster >= bytes_per_cluster {
        return DataLookup::NextCluster(start.1);
    }
    // How many blocks in are we?
    let num_blocks = BlockCount(offset_from_cluster / Block::LEN_U32);
    let block_offset: usize = (desired_offset % Block::LEN_U32) as usize;
    let available: usize = Block::LEN - block_offset;
    DataLookup::Found(Located { cluster: start.1, num_blocks, block_offset, available })
}

impl Located {
    /// The address of the block, given the first block of its cluster.
    pub fn block_idx(&self, first_block: BlockIdx) -> (idx: BlockIdx)
        requires
            first_block.0 + self.num_blocks.0 <= u32::MAX,
        ensures
            idx.0 == first_block.0 + self.num_blocks.0,
    {
        first_block + self.num_blocks
    }

    /// Tells whether the block has to be read before it is filled: it is, unless
    /// it is filled from its beginning.
    pub fn read_before_filling(&self) -> (read: bool)
        ensures
            read == (self.block_offset != 0),
    {
        self.block_offset != 0
    }
}

/// `target` with the bytes from `at` on replaced by `n` bytes of `source`.
pub open spec fn spliced(target: Seq<u8>, at: int, source: Seq<u8>, from: int, n: int) -> Seq<u8> {
    Seq::new(
        target.len(),
        |i: int|
            if at <= i < at + n {
                source[from + (i - at)]
            } else {
                target[i]
            },
    )
}

/// Copies `n` bytes of `source` into `target`.
fn copy_bytes(target: &mut [u8], at: usize, source: &[u8], from: usize, n: usize)
    requires
        at + n <= old(target)@.len(),
        from + n <= source@.len(),
    ensures
        final(target)@ == spliced(old(target)@, at as int, source@, from as int, n as int),
{
    let target_len: usize = target.len();
    let source_len: usize = source.len();
    let mut i: usize = 0;
    while i < n
        invariant
            i <= n,
            at + n <= target_len == target@.len(),
            from + n <= source_len == source@.len(),
            target@ == spliced(old(target)@, at as int, source@, from as int, i as int),
        decreases n - i,
    {
        target[at + i] = source[from + i];
        i = i + 1;
        assert(target@ =~= spliced(old(target)@, at as int, source@, from as int, i as int));
    }
    assert(target@ =~= spliced(old(target)@, at as int, source@, from as int, n as int));
}

/// Writes the 32 bytes of a directory entry to its place in its block.
pub fn write_entry_to_disk(entry: &DirEntry, serialized: &[u8; 32], block: &mut Block)
    requires
        entry.entry_offset + 32 <= 512,
    ensures
        final(block).contents@ == spliced(
            old(block).contents@,
            entry.entry_offset as int,
            serialized@,
            0,
            32,
        ),
{
    copy_bytes(&mut block.contents, entry.entry_offset as usize, serialized.as_slice(), 0, 32);
}

/// The lesser of two numbers.
pub open spec fn min(a: int, b: int) -> int {
    if a <= b {
        a
    } else {
        b
    }
}

fn min_usize(a: usize, b: usize) -> (m: usize)
    ensures
        m == min(a as int, b as int),
{
    if a <= b {
        a
    } else {
        b
    }
}

/// A read from an open file.
pub struct ReadOp {
    /// The number of bytes that were read.
    pub read: usize,
    /// The number of bytes that there is room for.
    pub space: usize,
}

/// What a read needs next.
#[derive(Debug, Copy, Clone, PartialEq, Eq, Structural)]
pub enum ReadStep {
    /// Nothing: this many bytes were read.
    Done(usize),
    /// The cluster that follows this one, for `ReadOp::cluster_found`.
    NextCluster(Cluster),
    /// The contents of a block, for `ReadOp::block_read`.
    ReadBlock(Located),
}

/// The number of bytes from a position in a file to the end of its block, but
/// no more than `most`.
pub open spec fn within_block(offset: int, most: int) -> int {
    min(512 - offset % 512, most)
}

/// The number of bytes that the next block of a read contributes.
pub open spec fn read_count(file: File, space: usize) -> int {
    within_block(
        file.current_offset as int,
        min(space as int, file.length - file.current_offset),
    )
}

/// A file at whose position a search starts.
pub open spec fn file_searched(file: File) -> File {
    File {
        current_cluster: search_start(
            file.starting_cluster,
            file.current_cluster,
            file.current_offset,
        ),
        ..file
    }
}

impl ReadOp {
    /// What the read needs next. The search for it starts at the last cluster
    /// that was read, or at the start of the file.
    pub fn next(&self, volume: &Volume, file: &mut File) -> (step: ReadStep)
        requires
            cluster_size(*volume) > 0,
            old(file).wf(),
        ensures
            final(file).wf(),
            if self.space == 0 || old(file).current_offset == old(file).length {
                step == ReadStep::Done(self.read) && *final(file) == *old(file)
            } else {
                &&& *final(file) == file_searched(*old(file))
                &&& step == match lookup(
                    cluster_size(*volume),
                    final(file).current_cluster,
                    final(file).current_offset,
                ) {
                    DataLookup::NextCluster(cluster) => ReadStep::NextCluster(cluster),
                    DataLookup::Found(located) => ReadStep::ReadBlock(located),
                }
            },
    {
        if self.space == 0 || file.eof() {
            return ReadStep::Done(self.read);
        }
        let desired_offset: u32 = file.current_offset;
        let first = file.starting_cluster;
        match find_data_on_disk(volume, first, &mut file.current_cluster, desired_offset) {
            DataLookup::NextCluster(cluster) => ReadStep::NextCluster(cluster),
            DataLookup::Found(located) => ReadStep::ReadBlock(located),
        }
    }

    /// Goes on to the next cluster of the file, or ends the read with the error
    /// that the search for the cluster met.
    pub fn cluster_found(volume: &Volume, file: &mut File, next: Result<Cluster, Error>) -> (result:
        Result<(), Error>)
        requires
            old(file).wf(),
            old(file).current_cluster.0 + cluster_size(*volume) <= old(file).current_offset,
        ensures
            final(file).wf(),
            match next {
                Ok(cluster) => result is Ok && *final(file) == (File {
                    current_cluster: one_cluster_on(
                        cluster_size(*volume),
                        old(file).current_cluster,
                        cluster,
                    ),
                    ..*old(file)
                }),
                Err(e) => result == Err::<(), Error>(e) && *final(file) == *old(file),
            },
    {
        match next {
            Ok(cluster) => {
                file.current_cluster = (
                    file.current_cluster.0 + bytes_per_cluster(volume),
                    cluster,
                );
                Ok(())
            },
            Err(e) => Err(e),
        }
    }

    /// Takes over the contents of the block at the position of the file.
    pub fn block_read(&mut self, file: &mut File, buffer: &mut [u8], block: &Block)
        requires
            old(file).wf(),
            old(file).current_offset < old(file).length,
            old(self).space > 0,
            old(self).read + old(self).space == old(buffer)@.len(),
        ensures
            final(file).wf(),
            ({
                let n = read_count(*old(file), old(self).space);
                &&& n > 0
                &&& final(self).read == old(self).read + n
                &&& final(self).space == old(self).space - n
                &&& final(buffer)@ == spliced(
                    old(buffer)@,
                    old(self).read as int,
                    block.contents@,
                    old(file).current_offset as int % 512,
                    n,
                )
                &&& *final(file) == (File {
                    current_offset: (old(file).current_offset + n) as u32,
                    ..*old(file)
                })
            }),
    {
        let buffer_len: usize = buffer.len();
        assert(self.read + self.space == buffer_len);
        let block_offset: usize = (file.current_offset % Block::LEN_U32) as usize;
        let available: usize = Block::LEN - block_offset;
        let to_copy: usize = min_usize(min_usize(available, self.space), file.left() as usize);
        copy_bytes(buffer, self.read, block.contents.as_slice(), block_offset, to_copy);
        self.read = self.read + to_copy;
        self.space = self.space - to_copy;
        file.seek_forward(to_copy as u32);
    }
}

/// How far a write has come with the block at hand.
#[derive(Debug, Copy, Clone, PartialEq, Eq, Structural)]
pub enum WritePhase {
    /// The file has no cluster yet; its first one is to be allocated.
    AllocateFirst,
    /// The cluster chain is followed to the position of the file.
    Walk,
    /// The cluster chain ended before the position of the file; it is to be
    /// extended.
    Extend,
    /// The cluster chain, which was extended, is followed to the position of
    /// the file.
    WalkExtended,
}

/// A write to an open file.
#[derive(Debug, Copy, Clone)]
pub struct WriteOp {
    /// What is going on.
    pub phase: WritePhase,
    /// The number of bytes that the buffer holds.
    pub buffer_len: usize,
    /// The number of bytes to write in all.
    pub to_write: usize,
    /// The number of bytes that were written.
    pub written: usize,
    /// The cluster that the search has come to, and where in the file it begins.
    pub cluster: (u32, Cluster),
}

/// What a write needs next.
#[derive(Debug, Copy, Clone, PartialEq, Eq, Structural)]
pub enum WriteStep {
    /// Nothing: this many bytes were written.
    Done(usize),
    /// A new cluster, chained behind the given one if there is one, for
    /// `WriteOp::cluster_allocated`.
    AllocateCluster(Option<Cluster>),
    /// The cluster that follows this one, for `WriteOp::cluster_found`.
    NextCluster(Cluster),
    /// A block to be filled by `WriteOp::fill_block` and written to the disk.
    /// It is read from the disk before if the offset in it is not zero, and
    /// is full of zeros otherwise.
    WriteBlock(Located),
}

/// The number of bytes that the next block of a write takes.
pub open spec fn write_count(op: WriteOp, file: File) -> int {
    within_block(file.current_offset as int, op.to_write - op.written)
}

/// The position from which a file that has a cluster is written.
pub open spec fn write_position(file: File) -> (u32, Cluster) {
    if file.current_cluster.1.0 < file.starting_cluster.0 {
        (0, file.starting_cluster)
    } else {
        file.current_cluster
    }
}

/// A write that begins in a file which has a cluster.
pub open spec fn write_begun(file: File, buffer_len: usize) -> WriteOp {
    WriteOp {
        phase: WritePhase::Walk,
        buffer_len,
        to_write: min(buffer_len as int, MAX_FILE_SIZE - file.current_offset) as usize,
        written: 0,
        cluster: write_position(file),
    }
}

/// A file after `n` more bytes were written to it.
pub open spec fn file_written(file: File, cluster: (u32, Cluster), n: int, now: Timestamp) -> File {
    File {
        current_cluster: cluster,
        current_offset: (file.current_offset + n) as u32,
        length: (file.length + n) as u32,
        entry: DirEntry {
            size: (file.length + n) as u32,
            attributes: Attributes(file.entry.attributes.0 | 0x20),
            mtime: now,
            ..file.entry
        },
        ..file
    }
}

impl<const MAX_DIRS: usize, const MAX_FILES: usize> FatFs<MAX_DIRS, MAX_FILES> {
    /// Read from an open file.
    pub fn read(&self, buffer_len: usize) -> (op: ReadOp)
        ensures
            op == (ReadOp { read: 0, space: buffer_len }),
    {
        ReadOp { read: 0, space: buffer_len }
    }

    /// Write to a open file.
    pub fn write(&self, file: &mut File, buffer_len: usize) -> (result: Result<WriteOp, Error>)
        requires
            old(file).wf(),
        ensures
            final(file).wf(),
            result matches Ok(op) ==> op.wf(*final(file)),
            if old(file).mode == Mode::ReadOnly {
                &&& result == Err::<WriteOp, Error>(Error::ReadOnly)
                &&& *final(file) == *old(file)
            } else if old(file).starting_cluster.0 < RESERVED_ENTRIES {
                &&& result == Ok::<WriteOp, Error>(
                    WriteOp {
                        phase: WritePhase::AllocateFirst,
                        buffer_len,
                        to_write: 0,
                        written: 0,
                        cluster: old(file).current_cluster,
                    },
                )
                &&& *final(file) == *old(file)
            } else {
                &&& result == Ok::<WriteOp, Error>(write_begun(*old(file), buffer_len))
                &&& *final(file) == (File {
                    current_cluster: write_position(*old(file)),
                    ..*old(file)
                })
            },
    {
        match file.mode {
            Mode::ReadOnly => {
                return Err(Error::ReadOnly);
            },
            _ => {},
        }
        if file.starting_cluster.0 < RESERVED_ENTRIES {
            // file doesn't have a valid allocated cluster (possible zero-length file), allocate one
            return Ok(
                WriteOp {
                    phase: WritePhase::AllocateFirst,
                    buffer_len,
                    to_write: 0,
                    written: 0,
                    cluster: file.current_cluster,
                },
            );
        }
        Ok(WriteOp::begin(file, buffer_len))
    }
}

impl WriteOp {
    /// The write fits the file: what is left to write does not take it past the
    /// maximum file size.
    pub open spec fn wf(self, file: File) -> bool {
        &&& file.wf()
        &&& self.phase != WritePhase::AllocateFirst ==> {
            &&& self.written <= self.to_write <= self.buffer_len
            &&& self.to_write - self.written <= MAX_FILE_SIZE - file.current_offset
        }
    }

    fn begin(file: &mut File, buffer_len: usize) -> (op: WriteOp)
        requires
            old(file).wf(),
        ensures
            op == write_begun(*old(file), buffer_len),
            *final(file) == (File { current_cluster: write_position(*old(file)), ..*old(file) }),
            op.wf(*final(file)),
    {
        if file.current_cluster.1.0 < file.starting_cluster.0 {
            file.current_cluster = (0, file.starting_cluster);
        }
        let bytes_until_max: usize = (MAX_FILE_SIZE - file.current_offset) as usize;
        WriteOp {
            phase: WritePhase::Walk,
            buffer_len,
            to_write: min_usize(buffer_len, bytes_until_max),
            written: 0,
            cluster: file.current_cluster,
        }
    }

    /// What the write needs next. The search for it starts at the last cluster
    /// that was used, or at the start of the file.
    pub fn next(&mut self, volume: &Volume, file: &File) -> (step: WriteStep)
        requires
            cluster_size(*volume) > 0,
            old(self).wf(*file),
        ensures
            final(self).wf(*file),
            match old(self).phase {
                WritePhase::AllocateFirst => {
                    &&& *final(self) == *old(self)
                    &&& step == WriteStep::AllocateCluster(None)
                },
                WritePhase::Extend => {
                    &&& *final(self) == *old(self)
                    &&& step == WriteStep::AllocateCluster(Some(old(self).cluster.1))
                },
                _ => if old(self).written == old(self).to_write {
                    *final(self) == *old(self) && step == WriteStep::Done(old(self).written)
                } else {
                    &&& *final(self) == (WriteOp {
                        cluster: search_start(
                            file.starting_cluster,
                            old(self).cluster,
                            file.current_offset,
                        ),
                        ..*old(self)
                    })
                    &&& step == match lookup(
                        cluster_size(*volume),
                        final(self).cluster,
                        file.current_offset,
                    ) {
                        DataLookup::NextCluster(cluster) => WriteStep::NextCluster(cluster),
                        DataLookup::Found(located) => WriteStep::WriteBlock(located),
                    }
                },
            },
    {
        match self.phase {
            WritePhase::AllocateFirst => WriteStep::AllocateCluster(None),
            WritePhase::Extend => WriteStep::AllocateCluster(Some(self.cluster.1)),
            _ => {
                if self.written >= self.to_write {
                    return WriteStep::Done(self.written);
                }
                match find_data_on_disk(
                    volume,
                    file.starting_cluster,
                    &mut self.cluster,
                    file.current_offset,
                ) {
                    DataLookup::NextCluster(cluster) => WriteStep::NextCluster(cluster),
                    DataLookup::Found(located) => WriteStep::WriteBlock(located),
                }
            },
        }
    }

    /// Goes on with a cluster that was allocated. Where the first cluster of a
    /// file cannot be had the write fails; where the chain cannot be extended
    /// it ends with what was written so far.
    pub fn cluster_allocated(&mut self, file: &mut File, allocated: Result<Cluster, Error>) -> (
        result: Result<(), Error>)
        requires
            old(self).wf(*old(file)),
            old(self).phase == WritePhase::AllocateFirst || old(self).phase == WritePhase::Extend,
        ensures
            final(self).wf(*final(file)),
            if old(self).phase == WritePhase::AllocateFirst {
                match allocated {
                    Err(e) => {
                        &&& result == Err::<(), Error>(e)
                        &&& *final(self) == *old(self)
                        &&& *final(file) == *old(file)
                    },
                    Ok(cluster) => {
                        let begun = File {
                            starting_cluster: cluster,
                            entry: DirEntry { cluster, ..old(file).entry },
                            ..*old(file)
                        };
                        &&& result is Ok
                        &&& *final(self) == write_begun(begun, old(self).buffer_len)
                        &&& *final(file) == (File {
                            current_cluster: write_position(begun),
                            ..begun
                        })
                    },
                }
            } else {
                &&& result is Ok
                &&& *final(file) == *old(file)
                &&& *final(self) == (if allocated is Ok {
                    WriteOp { phase: WritePhase::WalkExtended, ..*old(self) }
                } else {
                    WriteOp {
                        phase: WritePhase::Walk,
                        to_write: old(self).written,
                        ..*old(self)
                    }
                })
            },
    {
        match self.phase {
            WritePhase::AllocateFirst => match allocated {
                Ok(cluster) => {
                    file.starting_cluster = cluster;
                    file.entry.cluster = cluster;
                    *self = WriteOp::begin(file, self.buffer_len);
                    Ok(())
                },
                Err(e) => Err(e),
            },
            _ => {
                if allocated.is_ok() {
                    self.phase = WritePhase::WalkExtended;
                } else {
                    self.to_write = self.written;
                    self.phase = WritePhase::Walk;
                }
                Ok(())
            },
        }
    }

    /// Goes on to the next cluster of the file. Where the chain ends it is to
    /// be extended; where it ends although it was extended, the allocation was
    /// not sound.
    pub fn cluster_found(&mut self, volume: &Volume, file: &File, next: Result<Cluster, Error>) -> (
        result: Result<(), Error>)
        requires
            old(self).wf(*file),
            old(self).phase == WritePhase::Walk || old(self).phase == WritePhase::WalkExtended,
            old(self).cluster.0 + cluster_size(*volume) <= file.current_offset,
        ensures
            final(self).wf(*file),
            match next {
                Ok(cluster) => {
                    &&& result is Ok
                    &&& *final(self) == (WriteOp {
                        cluster: one_cluster_on(
                            cluster_size(*volume),
                            old(self).cluster,
                            cluster,
                        ),
                        ..*old(self)
                    })
                },
                Err(e) => if old(self).phase == WritePhase::WalkExtended {
                    &&& result == Err::<(), Error>(Error::AllocationError)
                    &&& *final(self) == *old(self)
                } else if e == Error::EndOfFile {
                    &&& result is Ok
                    &&& *final(self) == (WriteOp { phase: WritePhase::Extend, ..*old(self) })
                } else {
                    &&& result == Err::<(), Error>(e)
                    &&& *final(self) == *old(self)
                },
            },
    {
        match next {
            Ok(cluster) => {
                self.cluster = (self.cluster.0 + bytes_per_cluster(volume), cluster);
                Ok(())
            },
            Err(e) => match self.phase {
                WritePhase::WalkExtended => Err(Error::AllocationError),
                _ => match e {
                    Error::EndOfFile => {
                        self.phase = WritePhase::Extend;
                        Ok(())
                    },
                    _ => Err(e),
                },
            },
        }
    }

    /// The number of bytes that the block at the position of the file takes.
    pub fn bytes_for_block(&self, file: &File) -> (n: u32)
        requires
            self.wf(*file),
            self.phase == WritePhase::Walk || self.phase == WritePhase::WalkExtended,
        ensures
            n == write_count(*self, *file),
            n <= 512,
    {
        let block_offset: usize = (file.current_offset % Block::LEN_U32) as usize;
        let available: usize = Block::LEN - block_offset;
        min_usize(available, self.to_write - self.written) as u32
    }

    /// Puts the bytes to be written into the block at the position of the file.
    pub fn fill_block(&self, file: &File, buffer: &[u8], block: &mut Block)
        requires
            self.wf(*file),
            self.phase == WritePhase::Walk || self.phase == WritePhase::WalkExtended,
            self.buffer_len == buffer@.len(),
        ensures
            final(block).contents@ == spliced(
                old(block).contents@,
                file.current_offset as int % 512,
                buffer@,
                self.written as int,
                write_count(*self, *file),
            ),
    {
        let block_offset: usize = (file.current_offset % Block::LEN_U32) as usize;
        let to_copy: usize = self.bytes_for_block(file) as usize;
        copy_bytes(&mut block.contents, block_offset, buffer, self.written, to_copy);
    }

    /// Takes note that the block at the position of the file was written. The
    /// file grows by the bytes that were written. After this the directory
    /// entry of the file is to be written to the disk, and so is the
    /// information about free clusters.
    pub fn block_written(&mut self, file: &mut File, now: Timestamp)
        requires
            old(self).wf(*old(file)),
            old(self).phase == WritePhase::Walk || old(self).phase == WritePhase::WalkExtended,
            old(file).length + write_count(*old(self), *old(file)) <= u32::MAX,
        ensures
            final(self).wf(*final(file)),
            ({
                let n = write_count(*old(self), *old(file));
                &&& *final(self) == (WriteOp {
                    phase: WritePhase::Walk,
                    written: (old(self).written + n) as usize,
                    ..*old(self)
                })
                &&& *final(file) == file_written(*old(file), old(self).cluster, n, now)
            }),
    {
        let to_copy: u32 = self.bytes_for_block(file);
        self.written = self.written + to_copy as usize;
        self.phase = WritePhase::Walk;
        file.current_cluster = self.cluster;
        let grown: u32 = file.length + to_copy;
        file.update_length(grown);
        file.seek_forward(to_copy);
        file.entry.attributes.set_archive(true);
        file.entry.mtime = now;
    }
}

/// Following a chain moves on by the size of a cluster for each of its links.
proof fn lemma_along_chain(size: u32, start: (u32, Cluster), chain: Seq<Cluster>)
    requires
        start.0 + chain.len() * size <= u32::MAX,
    ensures
        along_chain(size, start, chain).0 == start.0 + chain.len() * size,
        along_chain(size, start, chain).1 == (if chain.len() == 0 {
            start.1
        } else {
            chain.last()
        }),
    decreases chain.len(),
{
    if chain.len() > 0 {
        let n = chain.len() as int;
        assert(n * size == (n - 1) * size + size) by (nonlinear_arith);
        lemma_along_chain(size, start, chain.drop_last());
    }
}

/// The search for a byte, from a cluster that begins at or before it, follows
/// the chain for as many clusters as lie between, and ends in the cluster and the
/// block that hold it.
proof fn lemma_search_ends_at_the_byte(
    size: u32,
    start: (u32, Cluster),
    chain: Seq<Cluster>,
    desired_offset: u32,
)
    requires
        size > 0,
        start.0 <= desired_offset,
        chain.len() == (desired_offset - start.0) / (size as int),
    ensures
        forall|k: int|
            0 <= k < chain.len() ==> lookup(
                size,
                #[trigger] along_chain(size, start, chain.take(k)),
                desired_offset,
            ) is NextCluster,
        lookup(size, along_chain(size, start, chain), desired_offset) == DataLookup::Found(
            Located {
                cluster: if chain.len() == 0 {
                    start.1
                } else {
                    chain.last()
                },
                num_blocks: BlockCount(
                    (((desired_offset - start.0) % (size as int)) / 512) as u32,
                ),
                block_offset: (desired_offset % 512) as usize,
                available: (512 - desired_offset % 512) as usize,
            },
        ),
{
    let distance = desired_offset - start.0;
    let n = chain.len() as int;
    vstd::arithmetic::div_mod::lemma_fundamental_div_mod(distance, size as int);
    vstd::arithmetic::div_mod::lemma_mod_bound(distance, size as int);
    assert(n * size == size * n) by (nonlinear_arith);
    lemma_along_chain(size, start, chain);
    assert forall|k: int| 0 <= k < chain.len() implies lookup(
        size,
        #[trigger] along_chain(size, start, chain.take(k)),
        desired_offset,
    ) is NextCluster by {
        assert(k * size + size <= n * size) by (nonlinear_arith)
            requires
                k + 1 <= n,
        ;
        lemma_along_chain(size, start, chain.take(k));
    }
}

/// The search for a byte starts at the last cluster that was read, or at the
/// start of the file where that lies behind the byte. It follows the chain for as
/// many clusters as lie between, and ends in the cluster and the block that hold
/// the byte.
pub proof fn law_search_ends_at_the_byte(
    size: u32,
    first: Cluster,
    last: (u32, Cluster),
    chain: Seq<Cluster>,
    desired_offset: u32,
)
    requires
        size > 0,
        chain.len() == (desired_offset - search_start(first, last, desired_offset).0) / (
        size as int),
    ensures
        ({
            let start = search_start(first, last, desired_offset);
            &&& start.0 <= desired_offset
            &&& last.0 <= desired_offset ==> start == last
            &&& forall|k: int|
                0 <= k < chain.len() ==> lookup(
                    size,
                    #[trigger] along_chain(size, start, chain.take(k)),
                    desired_offset,
                ) is NextCluster
            &&& lookup(size, along_chain(size, start, chain), desired_offset) == DataLookup::Found(
                Located {
                    cluster: if chain.len() == 0 {
                        start.1
                    } else {
                        chain.last()
                    },
                    num_blocks: BlockCount(
                        (((desired_offset - start.0) % (size as int)) / 512) as u32,
                    ),
                    block_offset: (desired_offset % 512) as usize,
                    available: (512 - desired_offset % 512) as usize,
                },
            )
        }),
{
    let start = search_start(first, last, desired_offset);
    lemma_search_ends_at_the_byte(size, start, chain, desired_offset);
}

/// A byte is found where it lies: its cluster begins on a block boundary, the
/// blocks and bytes that are passed over add up to its offset, and the block
/// is one of the cluster.
pub proof fn law_byte_is_found_where_it_lies(
    size: u32,
    start: (u32, Cluster),
    desired_offset: u32,
    located: Located,
)
    requires
        start.0 <= desired_offset,
        start.0 % 512 == 0,
        lookup(size, start, desired_offset) == DataLookup::Found(located),
    ensures
        located.cluster == start.1,
        start.0 + located.num_blocks.0 * 512 + located.block_offset == desired_offset,
        located.num_blocks.0 * 512 < size,
        located.block_offset + located.available == 512,
        located.available > 0,
{
    let distance = desired_offset - start.0;
    let blocks = located.num_blocks.0 as int;
    vstd::arithmetic::div_mod::lemma_fundamental_div_mod(distance, 512);
    assert(blocks == distance / 512);
    vstd::arithmetic::div_mod::lemma_fundamental_div_mod(start.0 as int, 512);
    vstd::arithmetic::div_mod::lemma_mod_multiples_vanish(
        start.0 as int / 512,
        distance,
        512,
    );
    assert(desired_offset as int % 512 == distance % 512);
}

/// The bytes of a file, block by block, as the disk holds them.
pub open spec fn byte_at(blocks: Map<int, Seq<u8>>, offset: int) -> u8 {
    blocks[offset / 512][offset % 512]
}

/// The buffer after a read of `left` bytes from `offset` on was done, each
/// block spliced into it in turn.
pub open spec fn read_through(
    blocks: Map<int, Seq<u8>>,
    offset: int,
    buffer: Seq<u8>,
    at: int,
    left: int,
) -> Seq<u8>
    decreases left,
{
    if left <= 0 || offset < 0 {
        buffer
    } else {
        let n = within_block(offset, left);
        read_through(
            blocks,
            offset + n,
            spliced(buffer, at, blocks[offset / 512], offset % 512, n),
            at + n,
            left - n,
        )
    }
}

/// The blocks after a write of `left` bytes from `offset` on was done, the
/// bytes spliced into each block in turn. A block that is written from its
/// beginning is not read before.
pub open spec fn write_through(
    blocks: Map<int, Seq<u8>>,
    offset: int,
    buffer: Seq<u8>,
    from: int,
    left: int,
) -> Map<int, Seq<u8>>
    decreases left,
{
    if left <= 0 || offset < 0 {
        blocks
    } else {
        let n = within_block(offset, left);
        let before = if offset % 512 == 0 {
            zero_block()
        } else {
            blocks[offset / 512]
        };
        write_through(
            blocks.insert(offset / 512, spliced(before, offset % 512, buffer, from, n)),
            offset + n,
            buffer,
            from + n,
            left - n,
        )
    }
}

/// A read fills the buffer with the bytes of the file from its position on,
/// and touches nothing else of the buffer.
pub proof fn law_read_gives_the_file(
    blocks: Map<int, Seq<u8>>,
    offset: int,
    buffer: Seq<u8>,
    at: int,
    left: int,
)
    requires
        0 <= offset,
        0 <= at,
        0 <= left,
        at + left <= buffer.len(),
    ensures
        ({
            let result = read_through(blocks, offset, buffer, at, left);
            &&& result.len() == buffer.len()
            &&& forall|i: int|
                0 <= i < left ==> #[trigger] result[at + i] == byte_at(blocks, offset + i)
            &&& forall|i: int|
                0 <= i < buffer.len() && !(at <= i < at + left) ==> #[trigger] result[i]
                    == buffer[i]
        }),
    decreases left,
{
    let result = read_through(blocks, offset, buffer, at, left);
    if left > 0 {
        let n = within_block(offset, left);
        let next = spliced(buffer, at, blocks[offset / 512], offset % 512, n);
        law_read_gives_the_file(blocks, offset + n, next, at + n, left - n);
        assert forall|i: int| 0 <= i < left implies #[trigger] result[at + i] == byte_at(
            blocks,
            offset + i,
        ) by {
            if i < n {
                assert(result[at + i] == next[at + i]);
                assert((offset + i) / 512 == offset / 512);
                assert((offset + i) % 512 == offset % 512 + i);
            } else {
                assert(result[(at + n) + (i - n)] == byte_at(blocks, (offset + n) + (i - n)));
            }
        }
        assert forall|i: int|
            0 <= i < buffer.len() && !(at <= i < at + left) implies #[trigger] result[i]
            == buffer[i] by {
            assert(result[i] == next[i]);
        }
    }
}

/// A write puts the bytes of the buffer into the file from its position on,
/// and leaves the bytes before its position as they were.
pub proof fn law_write_changes_the_file(
    blocks: Map<int, Seq<u8>>,
    offset: int,
    buffer: Seq<u8>,
    from: int,
    left: int,
)
    requires
        0 <= offset,
        0 <= from,
        0 <= left,
        from + left <= buffer.len(),
        offset % 512 != 0 ==> blocks[offset / 512].len() == 512,
    ensures
        ({
            let result = write_through(blocks, offset, buffer, from, left);
            &&& forall|i: int|
                0 <= i < left ==> #[trigger] byte_at(result, offset + i) == buffer[from + i]
            &&& forall|p: int| 0 <= p < offset ==> #[trigger] byte_at(result, p) == byte_at(blocks, p)
        }),
    decreases left,
{
    let result = write_through(blocks, offset, buffer, from, left);
    if left > 0 {
        let n = within_block(offset, left);
        let before = if offset % 512 == 0 {
            zero_block()
        } else {
            blocks[offset / 512]
        };
        let filled = spliced(before, offset % 512, buffer, from, n);
        let next = blocks.insert(offset / 512, filled);
        assert((offset + n) % 512 != 0 ==> (offset + n) / 512 == offset / 512);
        law_write_changes_the_file(next, offset + n, buffer, from + n, left - n);
        assert(result == write_through(next, offset + n, buffer, from + n, left - n));
        assert forall|i: int| 0 <= i < left implies #[trigger] byte_at(result, offset + i)
            == buffer[from + i] by {
            if i < n {
                assert(byte_at(result, offset + i) == byte_at(next, offset + i));
                assert((offset + i) / 512 == offset / 512);
                assert((offset + i) % 512 == offset % 512 + i);
            } else {
                assert(byte_at(result, (offset + n) + (i - n)) == buffer[(from + n) + (i - n)]);
            }
        }
        assert forall|p: int| 0 <= p < offset implies #[trigger] byte_at(result, p) == byte_at(
            blocks,
            p,
        ) by {
            assert(byte_at(result, p) == byte_at(next, p));
            if p / 512 == offset / 512 {
                assert(p % 512 < offset % 512);
            }
        }
    }
}

/// The number of bytes that a read will still deliver: the room that is left,
/// or what is left of the file.
pub open spec fn still_to_read(file: File, space: usize) -> int {
    min(space as int, file.length - file.current_offset)
}

/// The file, the read and the buffer after a read was run to its end, block by
/// block.
pub open spec fn read_run(
    blocks: Map<int, Seq<u8>>,
    file: File,
    op: ReadOp,
    buffer: Seq<u8>,
) -> (File, ReadOp, Seq<u8>)
    decreases still_to_read(file, op.space),
{
    if still_to_read(file, op.space) <= 0 {
        (file, op, buffer)
    } else {
        let n = read_count(file, op.space);
        let offset = file.current_offset as int;
        read_run(
            blocks,
            File { current_offset: (offset + n) as u32, ..file },
            ReadOp { read: (op.read + n) as usize, space: (op.space - n) as usize },
            spliced(buffer, op.read as int, blocks[offset / 512], offset % 512, n),
        )
    }
}

/// A read that is run to its end delivers as many bytes of the file, from its
/// position on, as there are and as there is room for; it moves the position
/// past them, and touches nothing else of the buffer.
pub proof fn law_read_runs_to_its_end(
    blocks: Map<int, Seq<u8>>,
    file: File,
    op: ReadOp,
    buffer: Seq<u8>,
)
    requires
        file.wf(),
        op.read + op.space == buffer.len(),
        buffer.len() <= usize::MAX,
    ensures
        ({
            let (after, done, result) = read_run(blocks, file, op, buffer);
            let offset = file.current_offset as int;
            let n = still_to_read(file, op.space);
            &&& after == File { current_offset: (offset + n) as u32, ..file }
            &&& done.read == op.read + n
            &&& done.space == 0 || after.current_offset == after.length
            &&& result.len() == buffer.len()
            &&& forall|i: int|
                0 <= i < n ==> #[trigger] result[op.read + i] == byte_at(blocks, offset + i)
            &&& forall|i: int|
                0 <= i < buffer.len() && !(op.read <= i < op.read + n) ==> #[trigger] result[i]
                    == buffer[i]
        }),
{
    lemma_read_run(blocks, file, op, buffer);
    law_read_gives_the_file(
        blocks,
        file.current_offset as int,
        buffer,
        op.read as int,
        still_to_read(file, op.space),
    );
}

/// A read that is run to its end splices block after block into the buffer.
proof fn lemma_read_run(blocks: Map<int, Seq<u8>>, file: File, op: ReadOp, buffer: Seq<u8>)
    requires
        file.wf(),
        op.read + op.space == buffer.len(),
        buffer.len() <= usize::MAX,
    ensures
        ({
            let (after, done, result) = read_run(blocks, file, op, buffer);
            let offset = file.current_offset as int;
            let n = still_to_read(file, op.space);
            &&& after == File { current_offset: (offset + n) as u32, ..file }
            &&& done.read == op.read + n
            &&& done.space == op.space - n
            &&& result == read_through(blocks, offset, buffer, op.read as int, n)
        }),
    decreases still_to_read(file, op.space),
{
    if still_to_read(file, op.space) > 0 {
        let n = read_count(file, op.space);
        let offset = file.current_offset as int;
        lemma_read_run(
            blocks,
            File { current_offset: (offset + n) as u32, ..file },
            ReadOp { read: (op.read + n) as usize, space: (op.space - n) as usize },
            spliced(buffer, op.read as int, blocks[offset / 512], offset % 512, n),
        );
    }
}

/// The blocks, the file and the write after a write was run to its end, block by
/// block. The way along the cluster chain is left out of the picture.
pub open spec fn write_run(
    blocks: Map<int, Seq<u8>>,
    file: File,
    op: WriteOp,
    buffer: Seq<u8>,
    now: Timestamp,
) -> (Map<int, Seq<u8>>, File, WriteOp)
    decreases op.to_write - op.written,
{
    if op.written >= op.to_write {
        (blocks, file, op)
    } else {
        let n = write_count(op, file);
        let offset = file.current_offset as int;
        let before = if offset % 512 == 0 {
            zero_block()
        } else {
            blocks[offset / 512]
        };
        write_run(
            blocks.insert(
                offset / 512,
                spliced(before, offset % 512, buffer, op.written as int, n),
            ),
            file_written(file, op.cluster, n, now),
            WriteOp { phase: WritePhase::Walk, written: (op.written + n) as usize, ..op },
            buffer,
            now,
        )
    }
}

/// A write that is run to its end writes all that it set out to write, moves
/// the position past it, and lets the file grow by as much, in its directory
/// entry too; the entry says when that was, and that the file has changed since
/// it was last archived.
pub proof fn law_write_runs_to_its_end(
    blocks: Map<int, Seq<u8>>,
    file: File,
    op: WriteOp,
    buffer: Seq<u8>,
    now: Timestamp,
)
    requires
        op.wf(file),
        op.phase == WritePhase::Walk || op.phase == WritePhase::WalkExtended,
        op.buffer_len == buffer.len(),
        file.length + (op.to_write - op.written) <= u32::MAX,
    ensures
        ({
            let (after, grown, done) = write_run(blocks, file, op, buffer, now);
            let left = op.to_write - op.written;
            &&& done.written == op.to_write
            &&& grown.wf()
            &&& grown.current_offset == file.current_offset + left
            &&& grown.length == file.length + left
            &&& left > 0 ==> {
                &&& grown.entry.size == grown.length
                &&& grown.entry.mtime == now
                &&& grown.entry.attributes.0 & 0x20 == 0x20
            }
            &&& after == write_through(
                blocks,
                file.current_offset as int,
                buffer,
                op.written as int,
                left,
            )
        }),
    decreases op.to_write - op.written,
{
    if op.written < op.to_write {
        let n = write_count(op, file);
        let offset = file.current_offset as int;
        let before = if offset % 512 == 0 {
            zero_block()
        } else {
            blocks[offset / 512]
        };
        let filled = spliced(before, offset % 512, buffer, op.written as int, n);
        let next = blocks.insert(offset / 512, filled);
        let left = op.to_write - op.written;
        let attributes = file.entry.attributes.0;
        assert((attributes | 0x20) & 0x20 == 0x20) by (bit_vector);
        law_write_runs_to_its_end(
            next,
            file_written(file, op.cluster, n, now),
            WriteOp { phase: WritePhase::Walk, written: (op.written + n) as usize, ..op },
            buffer,
            now,
        );
        assert(write_through(blocks, offset, buffer, op.written as int, left) == write_through(
            next,
            offset + n,
            buffer,
            op.written + n,
            left - n,
        ));
    }
}

/// What was written is read back: a read from where a write began, of as many
/// bytes as it wrote, delivers the bytes that were written.
pub proof fn law_read_gives_back_what_was_written(
    blocks: Map<int, Seq<u8>>,
    file: File,
    op: WriteOp,
    data: Seq<u8>,
    now: Timestamp,
    reader: File,
    buffer: Seq<u8>,
)
    requires
        op.wf(file),
        op.phase == WritePhase::Walk || op.phase == WritePhase::WalkExtended,
        op.written == 0,
        op.buffer_len == data.len(),
        file.length + op.to_write <= u32::MAX,
        file.current_offset % 512 != 0 ==> blocks[file.current_offset as int / 512].len() == 512,
        reader.wf(),
        reader.current_offset == file.current_offset,
        reader.current_offset + op.to_write <= reader.length,
        buffer.len() == op.to_write,
    ensures
        ({
            let after = write_run(blocks, file, op, data, now).0;
            let (_, done, result) = read_run(
                after,
                reader,
                ReadOp { read: 0, space: op.to_write },
                buffer,
            );
            done.read == op.to_write && result == data.take(op.to_write as int)
        }),
{
    let offset = file.current_offset as int;
    let n = op.to_write as int;
    let after = write_run(blocks, file, op, data, now).0;
    law_write_runs_to_its_end(blocks, file, op, data, now);
    law_write_changes_the_file(blocks, offset, data, 0, n);
    law_read_runs_to_its_end(after, reader, ReadOp { read: 0, space: op.to_write }, buffer);
    let result = read_run(after, reader, ReadOp { read: 0, space: op.to_write }, buffer).2;
    assert forall|i: int| 0 <= i < n implies result[i] == data[i] by {
        assert(result[0 + i] == byte_at(after, offset + i));
        assert(byte_at(after, offset + i) == data[0 + i]);
    }
    assert(result =~= data.take(n));
}

} // verus!
