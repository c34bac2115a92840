use tock_drivers::data_structures::{
    BlockCount, BlockIdx, Error, Volume, VolumeIdx, VolumeType,
};
use tock_drivers::error_code::ErrorCode;
use tock_drivers::fatfs::{
    solve_mode_variant, CurrentAsyncOperation, FatFs, OpenStep, Partition, ReadOutcome,
};
use tock_drivers::filename::ShortFileName;
use tock_drivers::files::{Attributes, Cluster, DirEntry, Directory, Mode, Timestamp};
use tock_drivers::fs::{FatType, FatVolume};

type Fs = FatFs<2, 2>;

fn new_fs() -> Fs {
    FatFs::new([0; 512])
}

fn fat() -> VolumeType {
    VolumeType::Fat(FatVolume {
        fat_type: FatType::Fat32,
        bytes_per_cluster: 1024,
    })
}

fn volume(idx: usize) -> Volume {
    Volume {
        idx: VolumeIdx(idx),
        volume_type: fat(),
    }
}

fn time() -> Timestamp {
    Timestamp {
        year_since_1970: 53,
        zero_indexed_month: 0,
        zero_indexed_day: 0,
        hours: 0,
        minutes: 0,
        seconds: 0,
    }
}

fn entry(name: &[u8], attributes: u8, cluster: u32, size: u32) -> DirEntry {
    DirEntry {
        name: ShortFileName::create_from_buffer(name).unwrap(),
        mtime: time(),
        ctime: time(),
        attributes: Attributes(attributes),
        cluster: Cluster(cluster),
        size,
        entry_block: BlockIdx(100),
        entry_offset: 32,
    }
}

fn dir(cluster: u32) -> DirEntry {
    entry(b"DIR", 0x10, cluster, 0)
}

fn file(cluster: u32) -> DirEntry {
    entry(b"FILE.TXT", 0, cluster, 700)
}

/// A Master Boot Record that lists one partition, as the second.
fn boot_record(status: u8, part_type: u8) -> [u8; 512] {
    let mut block = [0u8; 512];
    block[510] = 0x55;
    block[511] = 0xAA;
    block[462] = status;
    block[466] = part_type;
    block[470] = 0x78;
    block[471] = 0x56;
    block[472] = 0x34;
    block[473] = 0x12;
    block[474] = 0x00;
    block[475] = 0x00;
    block[476] = 0x01;
    block[477] = 0x00;
    block
}

#[test]
fn retrieval_of_a_volume() {
    let mut fs = new_fs();
    assert_eq!(fs.get_volume(VolumeIdx(1)), Ok(BlockIdx(0)));
    assert_eq!(
        fs.state,
        Some(CurrentAsyncOperation::GetVolume { volume_idx: 1 })
    );
    assert_eq!(fs.get_volume(VolumeIdx(0)), Err(ErrorCode::BUSY));
    let partition = Partition {
        lba_start: BlockIdx(0x12345678),
        num_blocks: BlockCount(0x10000),
    };
    assert_eq!(
        fs.read_done(&boot_record(0x80, 0x0C), 0, Ok(())),
        ReadOutcome::ParseVolume(partition)
    );
    assert_eq!(fs.volume_parsed(Ok(fat())), Some(Ok(volume(1))));
    assert_eq!(fs.state, Some(CurrentAsyncOperation::Idle));
    assert_eq!(fs.get_volume(VolumeIdx(0)), Ok(BlockIdx(0)));
}

#[test]
fn every_fat_partition_type_is_supported() {
    for part_type in 0..=255u8 {
        let mut fs = new_fs();
        fs.get_volume(VolumeIdx(1)).unwrap();
        let outcome = fs.read_done(&boot_record(0, part_type), 0, Ok(()));
        if matches!(part_type, 0x06 | 0x0B | 0x0C | 0x0E) {
            assert!(matches!(outcome, ReadOutcome::ParseVolume(_)));
        } else {
            assert_eq!(outcome, ReadOutcome::Failed(Error::FormatError));
            assert_eq!(fs.state, Some(CurrentAsyncOperation::Idle));
        }
    }
}

#[test]
fn volumes_that_are_not_there() {
    let mut fs = new_fs();
    fs.get_volume(VolumeIdx(4)).unwrap();
    assert_eq!(
        fs.read_done(&boot_record(0, 0x0C), 0, Ok(())),
        ReadOutcome::Failed(Error::NoSuchVolume)
    );
    fs.get_volume(VolumeIdx(1)).unwrap();
    assert_eq!(
        fs.read_done(&boot_record(0x01, 0x0C), 0, Ok(())),
        ReadOutcome::Failed(Error::FormatError)
    );
    fs.get_volume(VolumeIdx(1)).unwrap();
    assert_eq!(
        fs.read_done(&[0; 512], 0, Ok(())),
        ReadOutcome::Failed(Error::FormatError)
    );
    // the other entries are empty
    fs.get_volume(VolumeIdx(2)).unwrap();
    assert_eq!(
        fs.read_done(&boot_record(0, 0x0C), 0, Ok(())),
        ReadOutcome::Failed(Error::FormatError)
    );
    fs.get_volume(VolumeIdx(1)).unwrap();
    fs.read_done(&boot_record(0, 0x0C), 0, Ok(()));
    assert_eq!(
        fs.volume_parsed(Err(Error::BadBlockSize(4096))),
        Some(Err(Error::BadBlockSize(4096)))
    );
}

#[test]
fn other_entries_do_not_matter() {
    let mut block = boot_record(0x80, 0x0E);
    let found = |block: &[u8; 512]| {
        let mut fs = new_fs();
        fs.get_volume(VolumeIdx(1)).unwrap();
        fs.read_done(block, 0, Ok(()))
    };
    let before = found(&block);
    block[0..462].fill(0xEE);
    block[478..510].fill(0xEE);
    assert_eq!(found(&block), before);
    assert!(matches!(before, ReadOutcome::ParseVolume(_)));
}

#[test]
fn blocks_that_nobody_waits_for_are_ignored() {
    let mut fs = new_fs();
    assert_eq!(
        fs.read_done(&boot_record(0, 0x0C), 0, Ok(())),
        ReadOutcome::Ignored
    );
    assert_eq!(fs.buffer, [0; 512]);
    fs.write_done(&[1; 512], 0, Ok(()));
    assert_eq!(fs.buffer, [0; 512]);
    assert_eq!(fs.volume_parsed(Ok(fat())), None);
    fs.state = None;
    assert_eq!(fs.get_volume(VolumeIdx(0)), Err(ErrorCode::FAIL));
}

#[test]
fn retrieval_can_be_abandoned() {
    let mut fs = new_fs();
    fs.get_volume(VolumeIdx(1)).unwrap();
    fs.volume_abandoned();
    assert_eq!(fs.state, Some(CurrentAsyncOperation::Idle));
    fs.volume_abandoned();
    assert_eq!(fs.state, Some(CurrentAsyncOperation::Idle));
    fs.state = None;
    fs.volume_abandoned();
    assert_eq!(fs.state, None);
}

#[test]
fn full_table_of_open_files() {
    let mut fs = new_fs();
    for cluster in [9, 10] {
        assert!(fs
            .open_dir_entry(&volume(0), file(cluster), Mode::ReadOnly)
            .is_ok());
    }
    assert!(matches!(
        fs.entry_created(&volume(0), Ok(file(11))),
        Err(Error::TooManyOpenFiles)
    ));
    assert!(matches!(
        fs.open_file_in_dir(&volume(0), Ok(file(9)), b"file.txt", Mode::ReadOnly),
        Err(Error::TooManyOpenFiles)
    ));
}

#[test]
fn root_directory_opens_once() {
    let mut fs = new_fs();
    let root = fs.open_root_dir(&volume(0)).unwrap();
    assert_eq!(root.cluster, Cluster(Cluster::ROOT_DIR));
    assert!(root.entry.is_none());
    assert!(fs.has_open_handles());
    assert!(matches!(
        fs.open_root_dir(&volume(0)),
        Err(Error::DirAlreadyOpen)
    ));
    // another volume has another root directory
    assert!(fs.open_root_dir(&volume(1)).is_ok());
    assert!(matches!(
        fs.open_root_dir(&volume(2)),
        Err(Error::TooManyOpenDirs)
    ));
    fs.close_dir(&volume(0), root);
    // a free row before its own does not let a root directory open again
    let rows = fs.open_dirs;
    assert!(matches!(
        fs.open_root_dir(&volume(1)),
        Err(Error::DirAlreadyOpen)
    ));
    assert_eq!(fs.open_dirs, rows);
    assert!(fs.open_root_dir(&volume(0)).is_ok());
    // that it is open counts more than that the table is full
    assert!(matches!(
        fs.open_root_dir(&volume(0)),
        Err(Error::DirAlreadyOpen)
    ));
}

#[test]
fn directories_open_once() {
    let mut fs = new_fs();
    assert_eq!(fs.check_open_dirs_row(), Ok(1));
    let opened = fs.open_dir(&volume(0), Ok(dir(5))).unwrap();
    assert_eq!(opened.cluster, Cluster(5));
    assert_eq!(fs.check_open_dirs_row(), Ok(0));
    assert!(matches!(
        fs.open_dir(&volume(0), Ok(dir(5))),
        Err(Error::DirAlreadyOpen)
    ));
    assert!(matches!(
        fs.open_dir(&volume(0), Ok(file(6))),
        Err(Error::OpenedDirAsFile)
    ));
    assert!(matches!(
        fs.open_dir(&volume(0), Err(Error::FileNotFound)),
        Err(Error::FileNotFound)
    ));
    let second = fs.open_dir(&volume(0), Ok(dir(6))).unwrap();
    assert_eq!(fs.check_open_dirs_row(), Err(Error::TooManyOpenDirs));
    assert!(matches!(
        fs.open_dir(&volume(0), Ok(dir(5))),
        Err(Error::TooManyOpenDirs)
    ));
    fs.close_dir(&volume(0), opened);
    fs.close_dir(&volume(0), second);
    assert!(!fs.has_open_handles());
    assert!(fs.open_dir(&volume(0), Ok(dir(5))).is_ok());
}

#[test]
fn closing_what_is_not_open_does_nothing() {
    let mut fs = new_fs();
    fs.open_dir(&volume(0), Ok(dir(5))).unwrap();
    let stranger = Directory {
        cluster: Cluster(7),
        entry: None,
    };
    fs.close_dir(&volume(0), stranger);
    assert!(fs.has_open_handles());
}

#[test]
fn modes_with_an_alternative() {
    assert_eq!(
        solve_mode_variant(Mode::ReadWriteCreateOrAppend, true),
        Mode::ReadWriteAppend
    );
    assert_eq!(
        solve_mode_variant(Mode::ReadWriteCreateOrAppend, false),
        Mode::ReadWriteCreate
    );
    assert_eq!(
        solve_mode_variant(Mode::ReadWriteCreateOrTruncate, true),
        Mode::ReadWriteTruncate
    );
    assert_eq!(
        solve_mode_variant(Mode::ReadWriteCreateOrTruncate, false),
        Mode::ReadWriteCreate
    );
    assert_eq!(solve_mode_variant(Mode::ReadOnly, true), Mode::ReadOnly);
}

#[test]
fn opening_for_reading_starts_at_the_beginning() {
    let mut fs = new_fs();
    assert_eq!(fs.get_open_files_row(), Ok(1));
    match fs.open_dir_entry(&volume(0), file(9), Mode::ReadOnly) {
        Ok(OpenStep::Opened(file)) => {
            assert_eq!(file.starting_cluster, Cluster(9));
            assert_eq!(file.current_cluster, (0, Cluster(9)));
            assert_eq!(file.current_offset, 0);
            assert_eq!(file.length, 700);
            assert_eq!(file.left(), 700);
            assert!(!file.eof());
        }
        _ => panic!("not opened"),
    }
    assert!(matches!(
        fs.open_dir_entry(&volume(0), file(9), Mode::ReadOnly),
        Err(Error::FileAlreadyOpen)
    ));
    assert_eq!(
        fs.delete_file_in_dir(&volume(0), Ok(file(9))),
        Err(Error::FileIsOpen)
    );
}

#[test]
fn opening_for_appending_starts_at_the_end() {
    let mut fs = new_fs();
    match fs.open_file_in_dir(
        &volume(0),
        Ok(file(9)),
        b"file.txt",
        Mode::ReadWriteCreateOrAppend,
    ) {
        Ok(OpenStep::Opened(file)) => {
            assert_eq!(file.current_offset, 700);
            assert_eq!(file.mode, Mode::ReadWriteAppend);
            assert!(file.eof());
            assert_eq!(fs.close_file(&volume(0), file), Ok(()));
        }
        _ => panic!("not opened"),
    }
    assert!(!fs.has_open_handles());
    assert_eq!(fs.delete_file_in_dir(&volume(0), Ok(file(9))), Ok(()));
}

#[test]
fn opening_for_truncation_empties_the_file() {
    let mut fs = new_fs();
    let opened = match fs.open_file_in_dir(
        &volume(0),
        Ok(file(9)),
        b"file.txt",
        Mode::ReadWriteCreateOrTruncate,
    ) {
        Ok(OpenStep::Truncate(file)) => file,
        _ => panic!("not to be truncated"),
    };
    assert!(!fs.has_open_handles());
    let emptied = match Fs::chain_truncated(opened, Ok(())) {
        Ok(file) => file,
        Err(_) => panic!("not truncated"),
    };
    assert_eq!(emptied.length, 0);
    assert_eq!(emptied.entry.size, 0);
    assert!(fs.entry_stored(&volume(0), emptied, Ok(())).is_ok());
    assert!(fs.has_open_handles());
}

#[test]
fn truncation_can_fail() {
    let mut fs = new_fs();
    let opened = match fs.open_dir_entry(&volume(0), file(9), Mode::ReadWriteTruncate) {
        Ok(OpenStep::Truncate(file)) => file,
        _ => panic!("not to be truncated"),
    };
    assert!(matches!(
        Fs::chain_truncated(opened, Err(Error::BadCluster)),
        Err(Error::BadCluster)
    ));
    let opened = match fs.open_dir_entry(&volume(0), file(9), Mode::ReadWriteTruncate) {
        Ok(OpenStep::Truncate(file)) => file,
        _ => panic!("not to be truncated"),
    };
    assert!(matches!(
        fs.entry_stored(&volume(0), opened, Err(Error::DeviceError)),
        Err(Error::DeviceError)
    ));
    assert!(!fs.has_open_handles());
}

#[test]
fn creation_of_a_file() {
    let mut fs = new_fs();
    match fs.open_file_in_dir(
        &volume(0),
        Err(Error::FileNotFound),
        b"new.txt",
        Mode::ReadWriteCreate,
    ) {
        Ok(OpenStep::Create(name, attributes)) => {
            assert_eq!(name.display(None, ' '), "NEW.TXT");
            assert_eq!(attributes, Attributes(0));
        }
        _ => panic!("not to be created"),
    }
    let created = fs
        .entry_created(&volume(0), Ok(entry(b"NEW.TXT", 0, 0, 0)))
        .ok()
        .unwrap();
    assert_eq!(created.mode, Mode::ReadWriteCreate);
    assert_eq!(created.length, 0);
    assert!(fs.has_open_handles());
    assert!(matches!(
        fs.entry_created(&volume(0), Err(Error::NotEnoughSpace)),
        Err(Error::NotEnoughSpace)
    ));
}

#[test]
fn each_reason_not_to_open_a_file() {
    let mut fs = new_fs();
    assert!(matches!(
        fs.open_file_in_dir(
            &volume(0),
            Ok(file(9)),
            b"file.txt",
            Mode::ReadWriteCreate
        ),
        Err(Error::FileAlreadyExists)
    ));
    assert!(matches!(
        fs.open_file_in_dir(
            &volume(0),
            Err(Error::BadCluster),
            b"file.txt",
            Mode::ReadOnly
        ),
        Err(Error::FileNotFound)
    ));
    assert!(matches!(
        fs.open_file_in_dir(
            &volume(0),
            Err(Error::FileNotFound),
            b"fi le.txt",
            Mode::ReadWriteCreate
        ),
        Err(Error::FilenameError)
    ));
    assert!(matches!(
        fs.open_dir_entry(&volume(0), dir(9), Mode::ReadOnly),
        Err(Error::OpenedDirAsFile)
    ));
    assert!(matches!(
        fs.open_dir_entry(&volume(0), entry(b"A", 0x01, 9, 1), Mode::ReadWriteAppend),
        Err(Error::ReadOnly)
    ));
    assert!(fs
        .open_dir_entry(&volume(0), entry(b"A", 0x01, 9, 1), Mode::ReadOnly)
        .is_ok());
    assert!(matches!(
        fs.open_dir_entry(&volume(0), file(10), Mode::ReadWriteCreate),
        Err(Error::Unsupported)
    ));
    assert!(fs
        .open_dir_entry(&volume(0), file(11), Mode::ReadOnly)
        .is_ok());
    assert_eq!(fs.get_open_files_row(), Err(Error::TooManyOpenFiles));
    assert!(matches!(
        fs.open_dir_entry(&volume(0), file(12), Mode::ReadOnly),
        Err(Error::TooManyOpenFiles)
    ));
    assert!(matches!(
        fs.open_file_in_dir(
            &volume(0),
            Err(Error::FileNotFound),
            b"new.txt",
            Mode::ReadWriteCreate
        ),
        Err(Error::TooManyOpenFiles)
    ));
}

#[test]
fn each_reason_not_to_delete_a_file() {
    let fs = new_fs();
    assert_eq!(
        fs.delete_file_in_dir(&volume(0), Err(Error::FileNotFound)),
        Err(Error::FileNotFound)
    );
    assert_eq!(
        fs.delete_file_in_dir(&volume(0), Ok(dir(9))),
        Err(Error::DeleteDirAsFile)
    );
}

#[test]
fn reset_closes_everything() {
    let mut fs = new_fs();
    fs.open_root_dir(&volume(0)).unwrap();
    fs.open_dir_entry(&volume(0), file(9), Mode::ReadOnly)
        .ok()
        .unwrap();
    fs.reset();
    assert!(!fs.has_open_handles());
}
