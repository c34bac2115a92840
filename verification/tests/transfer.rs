use tock_drivers::data_structures::{
    Block, BlockCount, BlockIdx, Error, Volume, VolumeIdx, VolumeType,
};
use tock_drivers::fatfs::FatFs;
use tock_drivers::filename::ShortFileName;
use tock_drivers::files::{Attributes, Cluster, DirEntry, File, Mode, Timestamp};
use tock_drivers::fs::{FatType, FatVolume};
use tock_drivers::transfer::{
    find_data_on_disk, write_entry_to_disk, DataLookup, Located, ReadOp, ReadStep, WriteOp,
    WriteStep,
};

type Fs = FatFs<2, 2>;

fn time(seconds: u8) -> Timestamp {
    Timestamp {
        year_since_1970: 53,
        zero_indexed_month: 0,
        zero_indexed_day: 0,
        hours: 0,
        minutes: 0,
        seconds,
    }
}

fn volume() -> Volume {
    Volume {
        idx: VolumeIdx(0),
        volume_type: VolumeType::Fat(FatVolume {
            fat_type: FatType::Fat16,
            bytes_per_cluster: 1024,
        }),
    }
}

fn open_file(cluster: u32, length: u32, mode: Mode) -> File {
    let entry = DirEntry {
        name: ShortFileName::create_from_buffer(b"FILE").unwrap(),
        mtime: time(0),
        ctime: time(0),
        attributes: Attributes(0),
        cluster: Cluster(cluster),
        size: length,
        entry_block: BlockIdx(1),
        entry_offset: 64,
    };
    File {
        starting_cluster: Cluster(cluster),
        current_cluster: (0, Cluster(cluster)),
        current_offset: 0,
        length,
        mode,
        entry,
    }
}

/// A disk whose clusters of two blocks are chained in a table.
struct Disk {
    blocks: Vec<Block>,
    chain: Vec<Option<u32>>,
    free: Vec<u32>,
}

impl Disk {
    fn new(chain: Vec<Option<u32>>, free: Vec<u32>) -> Disk {
        let blocks = (0..2 * chain.len()).map(|_| Block::new()).collect();
        Disk {
            blocks,
            chain,
            free,
        }
    }

    fn next(&self, cluster: Cluster) -> Result<Cluster, Error> {
        match self.chain[cluster.0 as usize] {
            Some(next) => Ok(Cluster(next)),
            None => Err(Error::EndOfFile),
        }
    }

    fn allocate(&mut self, last: Option<Cluster>) -> Result<Cluster, Error> {
        match self.free.pop() {
            Some(cluster) => {
                if let Some(last) = last {
                    self.chain[last.0 as usize] = Some(cluster);
                }
                Ok(Cluster(cluster))
            }
            None => Err(Error::NotEnoughSpace),
        }
    }

    fn block(&self, located: &Located) -> usize {
        located.block_idx(BlockIdx(2 * located.cluster.0)).0 as usize
    }

    fn read(&self, file: &mut File, buffer: &mut [u8]) -> Result<usize, Error> {
        let fs: Fs = FatFs::new([0; 512]);
        let mut op: ReadOp = fs.read(buffer.len());
        loop {
            match op.next(&volume(), file) {
                ReadStep::Done(read) => return Ok(read),
                ReadStep::NextCluster(cluster) => {
                    ReadOp::cluster_found(&volume(), file, self.next(cluster))?
                }
                ReadStep::ReadBlock(located) => {
                    op.block_read(file, buffer, &self.blocks[self.block(&located)])
                }
            }
        }
    }

    fn write(&mut self, file: &mut File, buffer: &[u8]) -> Result<usize, Error> {
        let fs: Fs = FatFs::new([0; 512]);
        let mut op: WriteOp = fs.write(file, buffer.len())?;
        loop {
            match op.next(&volume(), file) {
                WriteStep::Done(written) => return Ok(written),
                WriteStep::AllocateCluster(last) => {
                    let allocated = self.allocate(last);
                    op.cluster_allocated(file, allocated)?
                }
                WriteStep::NextCluster(cluster) => {
                    op.cluster_found(&volume(), file, self.next(cluster))?
                }
                WriteStep::WriteBlock(located) => {
                    let at = self.block(&located);
                    let mut block = if located.read_before_filling() {
                        self.blocks[at].clone()
                    } else {
                        Block::new()
                    };
                    op.fill_block(file, buffer, &mut block);
                    self.blocks[at] = block;
                    op.block_written(file, time(7));
                }
            }
        }
    }
}

#[test]
fn bytes_are_found_where_they_lie() {
    let first = Cluster(3);
    let mut start = (0, first);
    assert_eq!(
        find_data_on_disk(&volume(), first, &mut start, 700),
        DataLookup::Found(Located {
            cluster: Cluster(3),
            num_blocks: BlockCount(1),
            block_offset: 188,
            available: 324,
        })
    );
    assert_eq!(
        find_data_on_disk(&volume(), first, &mut start, 1024),
        DataLookup::NextCluster(Cluster(3))
    );
    start = (1024, Cluster(4));
    assert_eq!(
        find_data_on_disk(&volume(), first, &mut start, 1024),
        DataLookup::Found(Located {
            cluster: Cluster(4),
            num_blocks: BlockCount(0),
            block_offset: 0,
            available: 512,
        })
    );
    assert_eq!(start, (1024, Cluster(4)));
    // what lies before the last cluster is looked for from the start of the file
    assert_eq!(
        find_data_on_disk(&volume(), first, &mut start, 1023),
        DataLookup::Found(Located {
            cluster: Cluster(3),
            num_blocks: BlockCount(1),
            block_offset: 511,
            available: 1,
        })
    );
    assert_eq!(start, (0, first));
}

#[test]
fn going_back_in_a_file() {
    let mut disk = Disk::new(vec![None; 6], vec![4]);
    let mut file = open_file(3, 0, Mode::ReadWriteAppend);
    let data: Vec<u8> = (0..1500u32).map(|i| (i % 253) as u8).collect();
    assert_eq!(disk.write(&mut file, &data), Ok(1500));
    let mut again = open_file(3, 1500, Mode::ReadOnly);
    let mut buffer = [0u8; 1500];
    assert_eq!(disk.read(&mut again, &mut buffer), Ok(1500));
    assert_eq!(again.current_cluster, (1024, Cluster(4)));
    again.current_offset = 10;
    let mut buffer = [0u8; 5];
    assert_eq!(disk.read(&mut again, &mut buffer), Ok(5));
    assert_eq!(buffer, [10, 11, 12, 13, 14]);
}

#[test]
fn what_was_written_is_read_back() {
    // the file has one cluster, and two more are free
    let mut disk = Disk::new(vec![None; 6], vec![4, 5]);
    let mut file = open_file(3, 0, Mode::ReadWriteAppend);
    let data: Vec<u8> = (0..2500u32).map(|i| (i % 251) as u8).collect();
    assert_eq!(disk.write(&mut file, &data[0..100]), Ok(100));
    assert_eq!(disk.write(&mut file, &data[100..2500]), Ok(2400));
    assert_eq!(disk.chain[3], Some(5));
    assert_eq!(disk.chain[5], Some(4));
    assert_eq!(file.length, 2500);
    assert_eq!(file.entry.size, 2500);
    assert_eq!(file.current_offset, 2500);
    assert_eq!(file.entry.attributes, Attributes(0x20));
    assert_eq!(file.entry.mtime, time(7));

    let mut again = open_file(3, 2500, Mode::ReadOnly);
    let mut buffer = vec![0u8; 2500];
    assert_eq!(disk.read(&mut again, &mut buffer), Ok(2500));
    assert_eq!(buffer, data);
    assert!(again.eof());
    assert_eq!(disk.read(&mut again, &mut buffer), Ok(0));
}

#[test]
fn reading_in_pieces() {
    let mut disk = Disk::new(vec![None; 6], vec![4]);
    let mut file = open_file(3, 0, Mode::ReadWriteAppend);
    let data: Vec<u8> = (0..1500u32).map(|i| (i % 253) as u8).collect();
    assert_eq!(disk.write(&mut file, &data), Ok(1500));
    let mut again = open_file(3, 1500, Mode::ReadOnly);
    let mut result = vec![];
    loop {
        let mut buffer = [0u8; 333];
        let read = disk.read(&mut again, &mut buffer).unwrap();
        if read == 0 {
            break;
        }
        result.extend_from_slice(&buffer[0..read]);
    }
    assert_eq!(result, data);
}

#[test]
fn first_cluster_is_allocated_on_demand() {
    let mut disk = Disk::new(vec![None; 6], vec![4]);
    let mut file = open_file(0, 0, Mode::ReadWriteCreate);
    assert_eq!(disk.write(&mut file, b"hello"), Ok(5));
    assert_eq!(file.starting_cluster, Cluster(4));
    assert_eq!(file.entry.cluster, Cluster(4));
    assert_eq!(file.current_cluster, (0, Cluster(4)));
    assert_eq!(&disk.blocks[8].contents[0..6], b"hello\0");
}

#[test]
fn writing_ends_when_the_disk_is_full() {
    let mut disk = Disk::new(vec![None; 6], vec![]);
    let mut file = open_file(3, 0, Mode::ReadWriteAppend);
    assert_eq!(disk.write(&mut file, &[1; 3000]), Ok(1024));
    assert_eq!(file.length, 1024);
    let mut empty = open_file(0, 0, Mode::ReadWriteCreate);
    assert_eq!(
        disk.write(&mut empty, &[1; 10]),
        Err(Error::NotEnoughSpace)
    );
}

#[test]
fn read_only_files_are_not_written() {
    let mut disk = Disk::new(vec![None; 6], vec![4]);
    let mut file = open_file(3, 0, Mode::ReadOnly);
    assert_eq!(disk.write(&mut file, b"x"), Err(Error::ReadOnly));
}

#[test]
fn broken_chains_are_reported() {
    let disk = Disk::new(vec![None; 6], vec![]);
    let mut file = open_file(3, 2000, Mode::ReadOnly);
    let mut buffer = vec![0u8; 2000];
    assert_eq!(disk.read(&mut file, &mut buffer), Err(Error::EndOfFile));
    assert_eq!(file.current_offset, 1024);

    // a chain that ends although it was extended
    let fs: Fs = FatFs::new([0; 512]);
    let mut file = open_file(3, 1024, Mode::ReadWriteAppend);
    file.current_offset = 1024;
    let mut op = fs.write(&mut file, 10).unwrap();
    assert_eq!(
        op.next(&volume(), &file),
        WriteStep::NextCluster(Cluster(3))
    );
    assert_eq!(
        op.cluster_found(&volume(), &file, Err(Error::EndOfFile)),
        Ok(())
    );
    assert_eq!(
        op.next(&volume(), &file),
        WriteStep::AllocateCluster(Some(Cluster(3)))
    );
    assert_eq!(op.cluster_allocated(&mut file, Ok(Cluster(4))), Ok(()));
    assert_eq!(
        op.cluster_found(&volume(), &file, Err(Error::EndOfFile)),
        Err(Error::AllocationError)
    );

    // any other error ends the write
    let mut op = fs.write(&mut file, 10).unwrap();
    assert_eq!(
        op.cluster_found(&volume(), &file, Err(Error::BadCluster)),
        Err(Error::BadCluster)
    );
}

#[test]
fn a_block_written_from_its_middle_keeps_its_beginning() {
    let mut disk = Disk::new(vec![None; 6], vec![]);
    let mut file = open_file(3, 0, Mode::ReadWriteAppend);
    assert_eq!(disk.write(&mut file, b"hello "), Ok(6));
    assert_eq!(disk.write(&mut file, b"world"), Ok(5));
    assert_eq!(&disk.blocks[6].contents[0..12], b"hello world\0");
}

#[test]
fn entries_are_written_to_their_place() {
    let file = open_file(3, 0, Mode::ReadOnly);
    let mut block = Block::new();
    write_entry_to_disk(&file.entry, &[9; 32], &mut block);
    assert_eq!(block.contents[63], 0);
    assert_eq!(block.contents[64..96], [9; 32]);
    assert_eq!(block.contents[96], 0);
}

#[test]
fn bytes_that_a_block_takes() {
    let fs: Fs = FatFs::new([0; 512]);
    let mut file = open_file(3, 700, Mode::ReadWriteAppend);
    file.current_offset = 700;
    let op = fs.write(&mut file, 1000).unwrap();
    assert_eq!(op.bytes_for_block(&file), 324);
    let op = fs.write(&mut file, 10).unwrap();
    assert_eq!(op.bytes_for_block(&file), 10);
    file.current_offset = 512;
    let op = fs.write(&mut file, 1000).unwrap();
    assert_eq!(op.bytes_for_block(&file), 512);
}
