use tock_drivers::block_device::BlockDevice;
use tock_drivers::data_structures::{Block, BlockCount, BlockIdx, BlockIter};

#[test]
fn new_blocks_are_full_of_zeros() {
    assert_eq!(Block::new().contents, [0u8; 512]);
    assert_eq!(Block::default().contents, [0u8; 512]);
    assert_eq!(Block::LEN, 512);
    assert_eq!(Block::LEN_U32, 512);
}

#[test]
fn blocks_are_bytes() {
    let mut block = Block::new();
    block[3] = 7;
    assert_eq!(block.contents[3], 7);
    assert_eq!(block[3], 7);
    assert_eq!(block.len(), 512);
    let copy = block.clone();
    assert_eq!(copy.contents, block.contents);
}

#[test]
fn addresses_and_counts() {
    assert_eq!(BlockIdx(5) + BlockCount(3), BlockIdx(8));
    assert_eq!(BlockIdx(5) - BlockCount(3), BlockIdx(2));
    assert_eq!(BlockCount(5) + BlockCount(3), BlockCount(8));
    assert_eq!(BlockCount(5) - BlockCount(5), BlockCount(0));
    let mut idx = BlockIdx(1);
    idx.add_assign(BlockCount(4));
    assert_eq!(idx, BlockIdx(5));
    idx.sub_assign(BlockCount(2));
    assert_eq!(idx, BlockIdx(3));
    let mut count = BlockCount(1);
    count.add_assign(BlockCount(4));
    assert_eq!(count, BlockCount(5));
    count.sub_assign(BlockCount(5));
    assert_eq!(count, BlockCount(0));
}

#[test]
fn byte_offsets() {
    assert_eq!(BlockIdx(0).into_bytes(), 0);
    assert_eq!(BlockIdx(3).into_bytes(), 1536);
    assert_eq!(BlockIdx(u32::MAX).into_bytes(), 2199023255040);
    assert_eq!(BlockCount(2).offset_bytes(511), BlockCount(2));
    assert_eq!(BlockCount(2).offset_bytes(512), BlockCount(3));
    assert_eq!(BlockCount(2).offset_bytes(1535), BlockCount(4));
}

fn visited(mut iter: BlockIter) -> Vec<u32> {
    let mut result = vec![];
    while let Some(idx) = iter.next() {
        result.push(idx.0);
    }
    assert!(iter.next().is_none());
    result
}

#[test]
fn iteration_goes_through_the_end_block() {
    assert_eq!(visited(BlockIter::new(BlockIdx(2), BlockIdx(4))), [2, 3, 4]);
    assert_eq!(visited(BlockIter::new(BlockIdx(2), BlockIdx(2))), [2]);
    assert!(visited(BlockIter::new(BlockIdx(3), BlockIdx(2))).is_empty());
    assert_eq!(
        visited(BlockIter::new(BlockIdx(u32::MAX - 1), BlockIdx(u32::MAX))),
        [u32::MAX - 1, u32::MAX]
    );
}

#[test]
fn ranges_have_the_given_number_of_blocks() {
    assert_eq!(visited(BlockIdx(7).range(BlockCount(3))), [7, 8, 9]);
    assert_eq!(visited(BlockIdx(7).range(BlockCount(1))), [7]);
    assert!(visited(BlockIdx(7).range(BlockCount(0))).is_empty());
}

#[test]
fn dump_shows_bytes_and_text() {
    let mut block = Block::new();
    block[0] = b'A';
    block[1] = 0xFE;
    block[2] = 0x7F;
    block[3] = 0x1F;
    block[511] = b'z';
    let dump = block.debug_string();
    let lines: Vec<&str> = dump.split('\n').collect();
    assert_eq!(lines.len(), 18);
    assert_eq!(lines[0], "Block:");
    assert_eq!(
        lines[1],
        "41fe7f1f00000000000000000000000000000000000000000000000000000000 A.\u{7f}............................."
    );
    assert_eq!(
        lines[16],
        "000000000000000000000000000000000000000000000000000000000000007a ...............................z"
    );
    assert_eq!(lines[17], "");
}

#[test]
fn block_device_knows_its_block_size() {
    let device = BlockDevice { block_size: 512 };
    assert_eq!(device.block_size, 512);
}
