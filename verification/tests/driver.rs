use tock_drivers::data_structures::{BlockIdx, Error, Volume, VolumeIdx, VolumeType};
use tock_drivers::driver::{
    command_return, command_return_u32, CommandReturn, CommandStep, DirSearch, FatFsDriver,
    FileSearch, FileStep, ProcessId, SharedName, CMD_CLOSE_DIR, CMD_CLOSE_FILE, CMD_DONE, CMD_INIT,
    CMD_OPEN_DIR, CMD_OPEN_FILE, CMD_OPEN_ROOT_DIR,
};
use tock_drivers::error_code::ErrorCode;
use tock_drivers::fatfs::FatFs;
use tock_drivers::filename::ShortFileName;
use tock_drivers::files::{Attributes, Cluster, DirEntry, Mode, Timestamp};
use tock_drivers::fs::{FatType, FatVolume};

const ME: ProcessId = ProcessId(1);
const OTHER: ProcessId = ProcessId(2);

fn volume() -> Volume {
    Volume {
        idx: VolumeIdx(0),
        volume_type: VolumeType::Fat(FatVolume {
            fat_type: FatType::Fat32,
            bytes_per_cluster: 512,
        }),
    }
}

fn new_driver() -> FatFsDriver {
    FatFsDriver {
        fatfs: Some(FatFs::new([0; 512])),
        filename_buffer: Some(vec![0; 11]),
        volume: None,
        directories: Some([None, None, None, None, None, None, None, None]),
        files: Some([None, None, None, None, None, None, None, None]),
        current_process: None,
    }
}

fn reserved_driver() -> FatFsDriver {
    let mut driver = new_driver();
    assert_eq!(
        driver.command(CMD_INIT, 0, 0, ME, SharedName::NoGrant),
        CommandStep::Retrieve(BlockIdx(0))
    );
    driver
        .fatfs
        .as_mut()
        .unwrap()
        .volume_parsed(Ok(volume().volume_type));
    assert_eq!(driver.init_done(ME, Ok(volume())), Ok(()));
    driver
}

fn driver_with_root() -> FatFsDriver {
    let mut driver = reserved_driver();
    assert_eq!(
        driver.command(CMD_OPEN_ROOT_DIR, 0, 0, ME, SharedName::NoGrant),
        CommandStep::Return(CommandReturn::SuccessU32(0))
    );
    driver
}

fn entry(attributes: u8, cluster: u32, size: u32) -> DirEntry {
    let time = Timestamp {
        year_since_1970: 53,
        zero_indexed_month: 0,
        zero_indexed_day: 0,
        hours: 0,
        minutes: 0,
        seconds: 0,
    };
    DirEntry {
        name: ShortFileName::create_from_buffer(b"NAME").unwrap(),
        mtime: time,
        ctime: time,
        attributes: Attributes(attributes),
        cluster: Cluster(cluster),
        size,
        entry_block: BlockIdx(5),
        entry_offset: 0,
    }
}

fn shared(name: &[u8]) -> SharedName {
    SharedName::Shared(name.to_vec())
}

fn failure(code: ErrorCode) -> CommandStep {
    CommandStep::Return(CommandReturn::Failure(code))
}

#[test]
fn reservation_is_needed() {
    let mut driver = new_driver();
    for command in [1, 2, 3, 4, 5, 8] {
        assert_eq!(
            driver.command(command, 0, 0, ME, SharedName::NoGrant),
            failure(ErrorCode::RESERVE)
        );
    }
    for command in [6, 7, 9, 100] {
        assert_eq!(
            driver.command(command, 0, 0, ME, SharedName::NoGrant),
            failure(ErrorCode::NOSUPPORT)
        );
    }
    assert_eq!(driver.has_reservation(&ME), Err(ErrorCode::RESERVE));
}

#[test]
fn one_process_is_served() {
    let mut driver = reserved_driver();
    assert_eq!(driver.has_reservation(&ME), Ok(()));
    assert_eq!(driver.has_reservation(&OTHER), Err(ErrorCode::BUSY));
    assert_eq!(
        driver.command(CMD_INIT, 0, 0, ME, SharedName::NoGrant),
        failure(ErrorCode::ALREADY)
    );
    for command in [0, 1, 2, 3, 4, 5, 8] {
        assert_eq!(
            driver.command(command, 0, 0, OTHER, SharedName::NoGrant),
            failure(ErrorCode::BUSY)
        );
    }
    assert_eq!(
        driver.command(CMD_DONE, 0, 0, ME, SharedName::NoGrant),
        CommandStep::Return(CommandReturn::Success)
    );
    assert_eq!(
        driver.command(CMD_INIT, 0, 0, OTHER, SharedName::NoGrant),
        CommandStep::Retrieve(BlockIdx(0))
    );
}

#[test]
fn init_can_fail() {
    let mut driver = new_driver();
    driver.syscall_init(ME, 0).unwrap();
    // a volume is being retrieved
    assert_eq!(driver.syscall_init(OTHER, 0), Err(ErrorCode::FAIL));
    assert_eq!(
        driver.init_done(ME, Err(Error::NoSuchVolume)),
        Err(ErrorCode::FAIL)
    );
    assert_eq!(driver.has_reservation(&ME), Err(ErrorCode::RESERVE));
    // nothing is waited for any more
    assert_eq!(driver.syscall_init(OTHER, 0), Ok(BlockIdx(0)));
    let mut driver = new_driver();
    driver.fatfs = None;
    assert_eq!(driver.syscall_init(ME, 0), Err(ErrorCode::FAIL));
}

#[test]
fn root_directory_has_descriptor_zero() {
    let mut driver = driver_with_root();
    assert!(driver.directories.as_ref().unwrap()[0].is_some());
    assert_eq!(driver.syscall_open_root_dir(), Err(ErrorCode::ALREADY));
    assert_eq!(
        driver.command(CMD_CLOSE_DIR, 0, 0, ME, SharedName::NoGrant),
        CommandStep::Return(CommandReturn::Success)
    );
    assert_eq!(driver.syscall_open_root_dir(), Ok(0));
    driver.directories = None;
    assert_eq!(driver.syscall_open_root_dir(), Err(ErrorCode::FAIL));
}

#[test]
fn root_directory_needs_a_volume_and_a_controller() {
    let mut driver = new_driver();
    assert_eq!(driver.syscall_open_root_dir(), Err(ErrorCode::FAIL));
    let mut driver = reserved_driver();
    driver.fatfs = None;
    assert_eq!(driver.syscall_open_root_dir(), Err(ErrorCode::FAIL));
}

#[test]
fn opening_and_closing_directories() {
    let mut driver = driver_with_root();
    let search = DirSearch {
        parent_dir_id: 0,
        new_dir_id: 1,
    };
    assert_eq!(
        driver.command(CMD_OPEN_DIR, 0, 0, ME, shared(b"SUB")),
        CommandStep::SearchDir(search)
    );
    assert_eq!(
        driver.filename_buffer,
        Some(b"SUB\0\0\0\0\0\0\0\0".to_vec())
    );
    assert_eq!(driver.opendir_found(search, Ok(entry(0x10, 7, 0))), Ok(1));
    // a name that is shorter leaves the rest of the old one behind
    let search = driver.syscall_opendir(1, shared(b"X")).unwrap();
    assert_eq!(search.new_dir_id, 2);
    assert_eq!(
        driver.filename_buffer,
        Some(b"XUB\0\0\0\0\0\0\0\0".to_vec())
    );
    // the directory is open already
    assert_eq!(
        driver.opendir_found(search, Ok(entry(0x10, 7, 0))),
        Err(ErrorCode::INVAL)
    );
    assert_eq!(
        driver.opendir_found(search, Err(Error::FileNotFound)),
        Err(ErrorCode::INVAL)
    );
    assert_eq!(driver.syscall_close_dir(1), Ok(()));
    assert_eq!(driver.syscall_close_dir(1), Err(ErrorCode::ALREADY));
    assert_eq!(driver.syscall_close_dir(8), Err(ErrorCode::INVAL));
    let search = driver.syscall_opendir(0, shared(b"A LONG NAME")).unwrap();
    assert_eq!(search.new_dir_id, 1);
    assert_eq!(driver.opendir_found(search, Ok(entry(0x10, 7, 0))), Ok(1));
}

#[test]
fn each_reason_not_to_open_a_directory() {
    let mut driver = driver_with_root();
    assert_eq!(
        driver.syscall_opendir(0, SharedName::NoGrant),
        Err(ErrorCode::RESERVE)
    );
    assert_eq!(
        driver.syscall_opendir(0, SharedName::NotShared),
        Err(ErrorCode::FAIL)
    );
    assert_eq!(
        driver.syscall_opendir(1, shared(b"A")),
        Err(ErrorCode::INVAL)
    );
    assert_eq!(
        driver.syscall_opendir(8, shared(b"A")),
        Err(ErrorCode::INVAL)
    );
    for cluster in 2..9 {
        let search = driver.syscall_opendir(0, shared(b"A")).unwrap();
        driver
            .opendir_found(search, Ok(entry(0x10, cluster, 0)))
            .unwrap();
    }
    assert_eq!(
        driver.syscall_opendir(0, shared(b"A")),
        Err(ErrorCode::NOMEM)
    );
    driver.filename_buffer = None;
    assert_eq!(
        driver.syscall_opendir(0, shared(b"A")),
        Err(ErrorCode::FAIL)
    );
    let mut driver = new_driver();
    assert_eq!(
        driver.syscall_opendir(0, shared(b"A")),
        Err(ErrorCode::FAIL)
    );
    assert_eq!(driver.syscall_close_dir(0), Err(ErrorCode::FAIL));
}

#[test]
fn opening_and_closing_files() {
    let mut driver = driver_with_root();
    let search = FileSearch {
        parent_dir_id: 0,
        new_file_id: 0,
        mode: Mode::ReadOnly,
    };
    assert_eq!(
        driver.command(CMD_OPEN_FILE, 0, 0, ME, shared(b"A.TXT")),
        CommandStep::SearchFile(search)
    );
    assert!(matches!(
        driver.file_found(search, Ok(entry(0, 9, 100))),
        Ok(FileStep::Opened(0))
    ));
    let search = driver.syscall_open_file(0, 0, shared(b"A.TXT")).unwrap();
    assert_eq!(search.new_file_id, 1);
    assert!(matches!(
        driver.file_found(search, Ok(entry(0, 9, 100))),
        Err(ErrorCode::INVAL)
    ));
    assert_eq!(
        driver.command(CMD_CLOSE_FILE, 0, 0, ME, SharedName::NoGrant),
        CommandStep::Return(CommandReturn::Success)
    );
    assert_eq!(driver.syscall_close_file(0), Err(ErrorCode::ALREADY));
    assert_eq!(driver.syscall_close_file(8), Err(ErrorCode::INVAL));
    assert!(matches!(
        driver.file_found(search, Ok(entry(0, 9, 100))),
        Ok(FileStep::Opened(1))
    ));
}

#[test]
fn truncating_a_file() {
    let mut driver = driver_with_root();
    let search = driver.syscall_open_file(0, 2, shared(b"A.TXT")).unwrap();
    let file = match driver.file_found(search, Ok(entry(0, 9, 100))) {
        Ok(FileStep::Truncate(file)) => file,
        _ => panic!("not to be truncated"),
    };
    let file = FatFsDriver::file_truncated(file, Ok(())).ok().unwrap();
    assert_eq!(file.entry.size, 0);
    assert_eq!(driver.file_stored(search, file, Ok(())), Ok(0));
    assert_eq!(
        driver.files.as_ref().unwrap()[0].as_ref().unwrap().length,
        0
    );
    let search = driver.syscall_open_file(0, 4, shared(b"B.TXT")).unwrap();
    let file = match driver.file_found(search, Ok(entry(0, 10, 100))) {
        Ok(FileStep::Truncate(file)) => file,
        _ => panic!("not to be truncated"),
    };
    assert!(matches!(
        FatFsDriver::file_truncated(file, Err(Error::BadCluster)),
        Err(ErrorCode::INVAL)
    ));
}

#[test]
fn creating_a_file() {
    let mut driver = driver_with_root();
    let search = driver.syscall_open_file(0, 3, shared(b"NEW.TXT")).unwrap();
    // what is behind the name in the buffer is no part of a valid name
    assert!(matches!(
        driver.file_found(search, Err(Error::FileNotFound)),
        Err(ErrorCode::INVAL)
    ));
    let search = driver
        .syscall_open_file(0, 3, shared(b"LONGNAM.TXT"))
        .unwrap();
    match driver.file_found(search, Err(Error::FileNotFound)) {
        Ok(FileStep::Create(name, attributes)) => {
            assert_eq!(name.display(None, ' '), "LONGNAM.TXT");
            assert_eq!(attributes, Attributes(0));
        }
        _ => panic!("not to be created"),
    }
    assert_eq!(
        driver.file_created(search, Err(Error::NotEnoughSpace)),
        Err(ErrorCode::INVAL)
    );
    assert_eq!(driver.file_created(search, Ok(entry(0, 0, 0))), Ok(0));
}

#[test]
fn modes_have_numbers() {
    let mut driver = driver_with_root();
    let modes = [
        Mode::ReadOnly,
        Mode::ReadWriteAppend,
        Mode::ReadWriteTruncate,
        Mode::ReadWriteCreate,
        Mode::ReadWriteCreateOrTruncate,
        Mode::ReadWriteCreateOrAppend,
    ];
    for (number, mode) in modes.iter().enumerate() {
        let search = driver.syscall_open_file(0, number, shared(b"A")).unwrap();
        assert_eq!(search.mode, *mode);
    }
    // the name is copied before the mode is looked at
    assert_eq!(
        driver.syscall_open_file(0, 6, shared(b"B")),
        Err(ErrorCode::INVAL)
    );
    assert_eq!(driver.filename_buffer.as_ref().unwrap()[0], b'B');
}

#[test]
fn each_reason_not_to_open_a_file_of_a_process() {
    let mut driver = driver_with_root();
    assert_eq!(
        driver.syscall_open_file(0, 0, SharedName::NoGrant),
        Err(ErrorCode::RESERVE)
    );
    assert_eq!(
        driver.syscall_open_file(0, 0, SharedName::NotShared),
        Err(ErrorCode::FAIL)
    );
    assert_eq!(
        driver.syscall_open_file(3, 0, shared(b"A")),
        Err(ErrorCode::INVAL)
    );
    for cluster in 2..10 {
        let search = driver.syscall_open_file(0, 0, shared(b"A")).unwrap();
        assert!(driver.file_found(search, Ok(entry(0, cluster, 0))).is_ok());
    }
    assert_eq!(
        driver.syscall_open_file(0, 0, shared(b"A")),
        Err(ErrorCode::NOMEM)
    );
    driver.files = None;
    assert_eq!(
        driver.syscall_open_file(0, 0, shared(b"A")),
        Err(ErrorCode::INVAL)
    );
    assert_eq!(driver.syscall_close_file(0), Err(ErrorCode::FAIL));
    let mut driver = driver_with_root();
    driver.volume = None;
    assert_eq!(
        driver.syscall_open_file(0, 0, shared(b"A")),
        Err(ErrorCode::FAIL)
    );
}

#[test]
fn done_closes_everything() {
    let mut driver = driver_with_root();
    let search = driver.syscall_open_file(0, 0, shared(b"A")).unwrap();
    assert!(driver.file_found(search, Ok(entry(0, 9, 1))).is_ok());
    driver.reset();
    assert!(driver.volume.is_none());
    assert!(driver.current_process.is_none());
    assert!(driver.directories.as_ref().unwrap()[0].is_none());
    assert!(driver.files.as_ref().unwrap()[0].is_none());
    assert!(!driver.fatfs.as_ref().unwrap().has_open_handles());
}

#[test]
fn returns_of_commands() {
    assert_eq!(command_return(Ok(())), CommandReturn::Success);
    assert_eq!(
        command_return(Err(ErrorCode::FAIL)),
        CommandReturn::Failure(ErrorCode::FAIL)
    );
    assert_eq!(command_return_u32(Ok(4)), CommandReturn::SuccessU32(4));
    assert_eq!(
        command_return_u32(Err(ErrorCode::NOMEM)),
        CommandReturn::Failure(ErrorCode::NOMEM)
    );
}
