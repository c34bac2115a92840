//! Block Device support
//!
//! Generic code for handling block devices.
use crate::error_code::ErrorCode;
use crate::fs::FatVolume;
use crate::text::hex_char;
use core::ops::{Add, Deref, DerefMut, Sub};
use vstd::prelude::*;
use vstd::std_specs::ops::{AddSpec, AddSpecImpl, SubSpec, SubSpecImpl};

verus! {

/// Represents a standard 512 byte block (also known as a sector). IBM PC
/// formatted 5.25" and 3.5" floppy disks, SD/MMC cards up to 1 GiB in size
/// and IDE/SATA Hard Drives up to about 2 TiB all have 512 byte blocks.
///
/// This library does not support devices with a block size other than 512
/// bytes.
pub struct Block {
    /// The 512 bytes in this block (or sector).
    pub contents: [u8; 512],
}

/// Represents the linear numeric address of a block (or sector). The first
/// block on a disk gets `BlockIdx(0)` (which usually contains the Master Boot
/// Record).
#[derive(Debug, Copy, Clone, PartialEq, Eq, PartialOrd, Ord, Structural)]
pub struct BlockIdx(pub u32);

/// Represents the a number of blocks (or sectors). Add this to a `BlockIdx`
/// to get an actual address on disk.
#[derive(Debug, Copy, Clone, PartialEq, Eq, PartialOrd, Ord, Structural)]
pub struct BlockCount(pub u32);

/// An iterator returned from `BlockIdx::range`.
///
/// Its view is the sequence of the blocks still to be visited.
pub struct BlockIter {
    inclusive_end: BlockIdx,
    current: BlockIdx,
    exhausted: bool,
}

/// A device that reads and writes single blocks asynchronously.
pub trait AsyncBlockDevice<'a> {
    /// Schedule an async read operation of one block.
    fn start_read(&self, block: &'static mut [u8; 512], block_idx: u32) -> Result<(), ErrorCode>;

    /// Schedule an async write operation of one block.
    fn start_write(&self, block: &'static [u8; 512], block_idx: u32) -> Result<(), ErrorCode>;

    /// Returns the client who is listening for this device.
    fn get_client(&'a self) -> Option<&'a dyn AsyncBlockDeviceClient>;

    /// Sets the client who is listening for this device.
    fn set_client(&'a self, client: &'a dyn AsyncBlockDeviceClient);
}

/// A listener for the completion of block transfers.
pub trait AsyncBlockDeviceClient {
    /// A read that was started has finished; `block` holds what was read.
    fn read_done(&mut self, block: &[u8; 512], block_idx: u32, status: Result<(), ()>);

    /// A write that was started has finished.
    fn write_done(&mut self, block: &[u8; 512], block_idx: u32, status: Result<(), ()>);
}

/// The contents of a block full of zeros.
pub open spec fn zero_block() -> Seq<u8> {
    Seq::new(512, |i: int| 0u8)
}

/// The text for one byte in the right-hand column of a dump.
pub open spec fn dump_char(b: u8) -> char {
    if 0x20 <= b <= 0x7F {
        b as char
    } else {
        '.'
    }
}

/// Two hexadecimal digits for each byte.
pub open spec fn hex_column(bytes: Seq<u8>) -> Seq<char> {
    Seq::new(
        2 * bytes.len(),
        |i: int|
            crate::text::hex_digit(
                if i % 2 == 0 {
                    bytes[i / 2] as int / 16
                } else {
                    bytes[i / 2] as int % 16
                },
            ),
    )
}

/// One line of a dump: the bytes in hexadecimal, a space, the bytes as text.
pub open spec fn dump_line(bytes: Seq<u8>) -> Seq<char> {
    hex_column(bytes) + seq![' '] + bytes.map_values(|b: u8| dump_char(b)) + seq!['\n']
}

/// The first `n` lines of a dump, 32 bytes to the line.
pub open spec fn dump_lines(bytes: Seq<u8>, n: int) -> Seq<char>
    decreases n,
{
    if n <= 0 {
        Seq::empty()
    } else {
        dump_lines(bytes, n - 1) + dump_line(bytes.subrange(32 * (n - 1), 32 * n))
    }
}

/// The dump of a whole block.
pub open spec fn block_dump(bytes: Seq<u8>) -> Seq<char> {
    seq!['B', 'l', 'o', 'c', 'k', ':', '\n'] + dump_lines(bytes, 16)
}

impl Block {
    /// All our blocks are a fixed length of 512 bytes. We do not support
    /// 'Advanced Format' Hard Drives with 4 KiB blocks, nor weird old
    /// pre-3.5-inch floppy disk formats.
    pub const LEN: usize = 512;

    /// Sometimes we want `LEN` as a `u32` and the casts don't look nice.
    pub const LEN_U32: u32 = 512;

    /// Create a new block full of zeros.
    pub fn new() -> (block: Block)
        ensures
            block.contents@ == zero_block(),
    {
        let block = Block { contents: [0u8; 512] };
        assert(block.contents@ =~= zero_block());
        block
    }

    /// A hexadecimal and text dump of the block, 32 bytes to the line.
    pub fn debug_string(&self) -> (text: String)
        ensures
            text@ == block_dump(self.contents@),
    {
        let mut text = String::new();
        text.push('B');
        text.push('l');
        text.push('o');
        text.push('c');
        text.push('k');
        text.push(':');
        text.push('\n');
        let ghost heading = text@;
        assert(heading =~= seq!['B', 'l', 'o', 'c', 'k', ':', '\n']);
        let mut line: usize = 0;
        while line < 16
            invariant
                line <= 16,
                text@ == heading + dump_lines(self.contents@, line as int),
            decreases 16 - line,
        {
            self.push_line(line, &mut text);
            line = line + 1;
            assert(text@ =~= heading + dump_lines(self.contents@, line as int));
        }
        text
    }

    /// Appends the line of the dump that shows the 32 bytes at `32 * line`.
    fn push_line(&self, line: usize, text: &mut String)
        requires
            line < 16,
        ensures
            final(text)@ == old(text)@ + dump_line(
                self.contents@.subrange(32 * line, 32 * line + 32),
            ),
    {
        let ghost bytes = self.contents@.subrange(32 * line, 32 * line + 32);
        let ghost before = text@;
        let mut i: usize = 0;
        while i < 32
            invariant
                i <= 32,
                line < 16,
                bytes == self.contents@.subrange(32 * line, 32 * line + 32),
                text@ == before + hex_column(bytes).take(2 * i),
            decreases 32 - i,
        {
            let b: u8 = self.contents[32 * line + i];
            text.push(hex_char(b / 16));
            text.push(hex_char(b % 16));
            assert(b == bytes[i as int]);
            assert(hex_column(bytes)[2 * i] == crate::text::hex_digit(b as int / 16));
            assert(hex_column(bytes)[2 * i + 1] == crate::text::hex_digit(b as int % 16));
            i = i + 1;
            assert(text@ =~= before + hex_column(bytes).take(2 * i));
        }
        text.push(' ');
        let ghost left = hex_column(bytes) + seq![' '];
        let ghost right = bytes.map_values(|b: u8| dump_char(b));
        assert(text@ =~= before + left);
        let mut j: usize = 0;
        while j < 32
            invariant
                j <= 32,
                line < 16,
                bytes == self.contents@.subrange(32 * line, 32 * line + 32),
                right == bytes.map_values(|b: u8| dump_char(b)),
                text@ == before + left + right.take(j as int),
            decreases 32 - j,
        {
            let b: u8 = self.contents[32 * line + j];
            if 0x20 <= b && b <= 0x7F {
                text.push(b as char);
            } else {
                text.push('.');
            }
            assert(right[j as int] == dump_char(b));
            j = j + 1;
            assert(text@ =~= before + left + right.take(j as int));
        }
        text.push('\n');
        assert(text@ =~= before + dump_line(bytes));
    }
}

impl Clone for Block {
    fn clone(&self) -> (block: Self)
        ensures
            block == *self,
    {
        Block { contents: self.contents }
    }
}

impl Default for Block {
    fn default() -> (block: Self)
        ensures
            block.contents@ == zero_block(),
    {
        Self::new()
    }
}

impl Deref for Block {
    type Target = [u8; 512];

    fn deref(&self) -> (contents: &[u8; 512])
        ensures
            *contents == self.contents,
    {
        &self.contents
    }
}

impl DerefMut for Block {
    fn deref_mut(&mut self) -> (contents: &mut [u8; 512])
        ensures
            *contents == old(self).contents,
            final(self).contents == *final(contents),
    {
        &mut self.contents
    }
}

impl AddSpecImpl<BlockCount> for BlockIdx {
    open spec fn obeys_add_spec() -> bool {
        true
    }

    open spec fn add_req(self, rhs: BlockCount) -> bool {
        self.0 + rhs.0 <= u32::MAX
    }

    open spec fn add_spec(self, rhs: BlockCount) -> BlockIdx {
        BlockIdx((self.0 + rhs.0) as u32)
    }
}

impl Add<BlockCount> for BlockIdx {
    type Output = BlockIdx;

    fn add(self, rhs: BlockCount) -> BlockIdx {
        BlockIdx(self.0 + rhs.0)
    }
}

impl AddSpecImpl<BlockCount> for BlockCount {
    open spec fn obeys_add_spec() -> bool {
        true
    }

    open spec fn add_req(self, rhs: BlockCount) -> bool {
        self.0 + rhs.0 <= u32::MAX
    }

    open spec fn add_spec(self, rhs: BlockCount) -> BlockCount {
        BlockCount((self.0 + rhs.0) as u32)
    }
}

impl Add<BlockCount> for BlockCount {
    type Output = BlockCount;

    fn add(self, rhs: BlockCount) -> BlockCount {
        BlockCount(self.0 + rhs.0)
    }
}

impl SubSpecImpl<BlockCount> for BlockIdx {
    open spec fn obeys_sub_spec() -> bool {
        true
    }

    open spec fn sub_req(self, rhs: BlockCount) -> bool {
        rhs.0 <= self.0
    }

    open spec fn sub_spec(self, rhs: BlockCount) -> BlockIdx {
        BlockIdx((self.0 - rhs.0) as u32)
    }
}

impl Sub<BlockCount> for BlockIdx {
    type Output = BlockIdx;

    fn sub(self, rhs: BlockCount) -> BlockIdx {
        BlockIdx(self.0 - rhs.0)
    }
}

impl SubSpecImpl<BlockCount> for BlockCount {
    open spec fn obeys_sub_spec() -> bool {
        true
    }

    open spec fn sub_req(self, rhs: BlockCount) -> bool {
        rhs.0 <= self.0
    }

    open spec fn sub_spec(self, rhs: BlockCount) -> BlockCount {
        BlockCount((self.0 - rhs.0) as u32)
    }
}

impl Sub<BlockCount> for BlockCount {
    type Output = BlockCount;

    fn sub(self, rhs: BlockCount) -> BlockCount {
        BlockCount(self.0 - rhs.0)
    }
}

/// The `n` consecutive block addresses that begin with `start`.
pub open spec fn blocks_from(start: BlockIdx, n: nat) -> Seq<BlockIdx> {
    Seq::new(n, |i: int| BlockIdx((start.0 + i) as u32))
}

impl BlockIdx {
    /// Moves this address forward by a number of blocks.
    pub fn add_assign(&mut self, rhs: BlockCount)
        requires
            old(self).0 + rhs.0 <= u32::MAX,
        ensures
            final(self).0 == old(self).0 + rhs.0,
    {
        self.0 = self.0 + rhs.0;
    }

    /// Moves this address back by a number of blocks.
    pub fn sub_assign(&mut self, rhs: BlockCount)
        requires
            rhs.0 <= old(self).0,
        ensures
            final(self).0 == old(self).0 - rhs.0,
    {
        self.0 = self.0 - rhs.0;
    }

    /// Convert a block index into a 64-bit byte offset from the start of the
    /// volume. Useful if your underlying block device actually works in
    /// bytes, like `open("/dev/mmcblk0")` does on Linux.
    pub fn into_bytes(self) -> (bytes: u64)
        ensures
            bytes == self.0 * 512,
    {
        (self.0 as u64) * (Block::LEN as u64)
    }

    /// Create an iterator from the current `BlockIdx` through the given
    /// number of blocks.
    pub fn range(self, num: BlockCount) -> (iter: BlockIter)
        requires
            self.0 + num.0 <= u32::MAX,
        ensures
            iter@ == blocks_from(self, num.0 as nat),
    {
        if num.0 == 0 {
            let iter = BlockIter { inclusive_end: self, current: self, exhausted: true };
            assert(iter@ =~= blocks_from(self, 0));
            iter
        } else {
            BlockIter::new(self, self + num - BlockCount(1))
        }
    }
}

impl BlockCount {
    /// Adds to this number of blocks.
    pub fn add_assign(&mut self, rhs: BlockCount)
        requires
            old(self).0 + rhs.0 <= u32::MAX,
        ensures
            final(self).0 == old(self).0 + rhs.0,
    {
        self.0 = self.0 + rhs.0;
    }

    /// Subtracts from this number of blocks.
    pub fn sub_assign(&mut self, rhs: BlockCount)
        requires
            rhs.0 <= old(self).0,
        ensures
            final(self).0 == old(self).0 - rhs.0,
    {
        self.0 = self.0 - rhs.0;
    }

    /// Take a number of blocks and increment by the integer number of blocks
    /// required to get to the block that holds the byte at the given offset.
    pub fn offset_bytes(self, offset: u32) -> (count: Self)
        requires
            self.0 + offset / 512 <= u32::MAX,
        ensures
            count.0 == self.0 + offset / 512,
    {
        BlockCount(self.0 + (offset / Block::LEN_U32))
    }
}

impl View for BlockIter {
    type V = Seq<BlockIdx>;

    closed spec fn view(&self) -> Seq<BlockIdx> {
        if self.exhausted || self.current.0 > self.inclusive_end.0 {
            Seq::empty()
        } else {
            blocks_from(self.current, (self.inclusive_end.0 - self.current.0 + 1) as nat)
        }
    }
}

impl BlockIter {
    /// Create a new `BlockIter`, from the given start block, through (and
    /// including) the given end block.
    pub fn new(start: BlockIdx, inclusive_end: BlockIdx) -> (iter: BlockIter)
        ensures
            iter@ == blocks_from(
                start,
                if start.0 <= inclusive_end.0 {
                    (inclusive_end.0 - start.0 + 1) as nat
                } else {
                    0
                },
            ),
    {
        let iter = BlockIter { inclusive_end, current: start, exhausted: false };
        assert(start.0 > inclusive_end.0 ==> iter@ =~= blocks_from(start, 0));
        iter
    }

    /// Takes the next block of the range, if there is one left.
    pub fn next(&mut self) -> (item: Option<BlockIdx>)
        ensures
            old(self)@.len() == 0 ==> item is None && final(self)@ == old(self)@,
            old(self)@.len() > 0 ==> item == Some(old(self)@[0]) && final(self)@
                == old(self)@.drop_first(),
    {
        if self.exhausted || self.current.0 > self.inclusive_end.0 {
            None
        } else {
            let this = self.current;
            if this.0 == self.inclusive_end.0 {
                self.exhausted = true;
            } else {
                self.current.add_assign(BlockCount(1));
            }
            assert(self@ =~= old(self)@.drop_first());
            Some(this)
        }
    }
}

/// Going back by as many blocks as were gone forward leads back to the start,
/// for addresses and for numbers of blocks.
pub proof fn law_going_back_undoes_going_forward(idx: BlockIdx, sum: BlockCount, count: BlockCount)
    requires
        idx.0 + count.0 <= u32::MAX,
        sum.0 + count.0 <= u32::MAX,
    ensures
        AddSpec::add_req(idx, count),
        SubSpec::sub_req(AddSpec::add_spec(idx, count), count),
        SubSpec::sub_spec(AddSpec::add_spec(idx, count), count) == idx,
        AddSpec::add_req(sum, count),
        SubSpec::sub_req(AddSpec::add_spec(sum, count), count),
        SubSpec::sub_spec(AddSpec::add_spec(sum, count), count) == sum,
{
}

/// Represents all the ways the functions in this crate can fail.
#[derive(Debug, Copy, Clone, PartialEq, Eq, Structural)]
pub enum Error {
    /// The underlying block device threw an error.
    DeviceError,
    /// Device is busy.
    DeviceBusy,
    /// The filesystem is badly formatted (or this code is buggy).
    FormatError,
    /// The given `VolumeIdx` was bad,
    NoSuchVolume,
    /// The given filename was bad
    FilenameError,
    /// Out of memory opening directories
    TooManyOpenDirs,
    /// Out of memory opening files
    TooManyOpenFiles,
    /// That file doesn't exist
    FileNotFound,
    /// You can't open a file twice
    FileAlreadyOpen,
    /// You can't open a directory twice
    DirAlreadyOpen,
    /// You can't open a directory as a file
    OpenedDirAsFile,
    /// You can't delete a directory as a file
    DeleteDirAsFile,
    /// You can't delete an open file
    FileIsOpen,
    /// We can't do that yet
    Unsupported,
    /// Tried to read beyond end of file
    EndOfFile,
    /// Found a bad cluster
    BadCluster,
    /// Error while converting types
    ConversionError,
    /// The device does not have enough space for the operation
    NotEnoughSpace,
    /// Cluster was not properly allocated by the library
    AllocationError,
    /// Jumped to free space during fat traversing
    JumpedFree,
    /// Tried to open Read-Only file with write mode
    ReadOnly,
    /// Tried to create an existing file
    FileAlreadyExists,
    /// Bad block size - only 512 byte blocks supported
    BadBlockSize(u16),
    /// Entry not found in the block
    NotInBlock,
}

/// Represents a partition with a filesystem within it.
#[derive(Debug, Copy, Clone, PartialEq, Eq, Structural)]
pub struct Volume {
    /// Which partition of the disk this is.
    pub idx: VolumeIdx,
    /// The filesystem within it.
    pub volume_type: VolumeType,
}

/// This enum holds the data for the various different types of filesystems we
/// support.
#[derive(Debug, Copy, Clone, PartialEq, Eq, Structural)]
pub enum VolumeType {
    /// FAT16/FAT32 formatted volumes.
    Fat(FatVolume),
}

/// A `VolumeIdx` is a number which identifies a volume (or partition) on a
/// disk. `VolumeIdx(0)` is the first primary partition on an MBR partitioned
/// disk.
#[derive(Debug, Copy, Clone, PartialEq, Eq, Structural)]
pub struct VolumeIdx(pub usize);

/// Marker for a FAT32 partition. Sometimes also use for FAT16 formatted
/// partitions.
pub const PARTITION_ID_FAT32_LBA: u8 = 0x0C;

/// Marker for a FAT16 partition with LBA. Seen on a Raspberry Pi SD card.
pub const PARTITION_ID_FAT16_LBA: u8 = 0x0E;

/// Marker for a FAT16 partition. Seen on a card formatted with the official
/// SD-Card formatter.
pub const PARTITION_ID_FAT16: u8 = 0x06;

/// Marker for a FAT32 partition. What Macosx disk utility (and also SD-Card formatter?)
/// use.
pub const PARTITION_ID_FAT32_CHS_LBA: u8 = 0x0B;

} // verus!
