use lwext4::backend::{block_span, MemoryBlockDevice};
use lwext4::device::{BlockDevice, BlockDeviceConfig, BlockDeviceInterface};
use lwext4::dir::{trim_nul_str, DirEntry, FileType, Metadata};
use lwext4::error::{errno_to_result, result_to_errno, Error, EOK};
use lwext4::fs::{
    removal_for, removal_plan, rename_call, rename_kind, seek_args, split_parent, ReadDir, Removal, RenameKind, SeekFrom,
    SEEK_CUR, SEEK_END, SEEK_SET,
};
use lwext4::lifecycle::DeviceRegistry;
use lwext4::path::{cstring_bytes, cstring_dir_bytes, to_cstring, to_cstring_dir};

fn config(block_size: u32, block_count: u64) -> BlockDeviceConfig {
    BlockDeviceConfig {
        block_size,
        block_count,
        part_size: block_size as u64 * block_count,
        part_offset: 0,
    }
}

fn memory(block_size: u32, block_count: u64) -> MemoryBlockDevice {
    MemoryBlockDevice::new(vec![0u8; (block_size as u64 * block_count) as usize], config(block_size, block_count))
}

/// A backend that counts how often the engine opens and closes it.
struct Counting {
    opens: u32,
    closes: u32,
    fail_open: Option<Error>,
}

impl Counting {
    fn new() -> Counting {
        Counting { opens: 0, closes: 0, fail_open: None }
    }
}

impl BlockDeviceInterface for Counting {
    fn open(&mut self) -> Result<BlockDeviceConfig, Error> {
        self.opens += 1;
        match self.fail_open {
            Some(e) => Err(e),
            None => Ok(config(512, 8)),
        }
    }

    fn read_block(&mut self, _buf: &mut Vec<u8>, _block_id: u64, _block_count: u32) -> Result<(), Error> {
        Err(Error::Io)
    }

    fn write_block(&mut self, _buf: &[u8], _block_id: u64, _block_count: u32) -> Result<(), Error> {
        Ok(())
    }

    fn close(&mut self) -> Result<(), Error> {
        self.closes += 1;
        Ok(())
    }

    fn lock(&mut self) -> Result<(), Error> {
        Ok(())
    }

    fn unlock(&mut self) -> Result<(), Error> {
        Err(Error::NotSupported)
    }
}

#[test]
fn error_codes_round_trip() {
    let kinds = [
        Error::OperationNotPermitted,
        Error::NoEntry,
        Error::Io,
        Error::FileExists,
        Error::NotDirectory,
        Error::IsDirectory,
        Error::InvalidArgument,
        Error::NoSpace,
        Error::TooManyLinks,
        Error::DirNotEmpty,
        Error::NotSupported,
        Error::InvalidError,
    ];
    for e in kinds {
        assert_eq!(Error::from_code(e.code()), Some(e));
        assert_eq!(errno_to_result(result_to_errno(Err(e))), Err(e));
    }
    assert_eq!(Error::NoEntry.code(), 2);
    assert_eq!(Error::FileExists.code(), 17);
    assert_eq!(Error::DirNotEmpty.code(), 39);
    assert_eq!(Error::NotSupported.code(), 95);
    assert_eq!(Error::InvalidError.code(), 9999);
}

#[test]
fn unknown_code_is_invalid_error() {
    assert_eq!(errno_to_result(EOK), Ok(()));
    assert_eq!(errno_to_result(12345), Err(Error::InvalidError));
    assert_eq!(errno_to_result(-1), Err(Error::InvalidError));
    assert_eq!(Error::from_code(3), None);
    assert_eq!(errno_to_result(28), Err(Error::NoSpace));
    assert_eq!(result_to_errno(Ok(())), 0);
    assert_eq!(result_to_errno(Err(Error::Io)), 5);
}

#[test]
fn paths_in_engine_form() {
    assert_eq!(cstring_bytes("/mp/a.txt"), b"/mp/a.txt\0".to_vec());
    assert_eq!(cstring_dir_bytes("/mp"), b"/mp/\0".to_vec());
    assert_eq!(cstring_bytes(""), vec![0u8]);
    assert_eq!(cstring_dir_bytes(""), b"/\0".to_vec());
    assert_eq!(to_cstring("/mp/write_test.txt"), b"/mp/write_test.txt\0".to_vec());
    assert_eq!(to_cstring_dir("/mp"), b"/mp/\0".to_vec());
    assert_eq!(to_cstring_dir("/mp/"), b"/mp/\0".to_vec());
    assert_eq!(cstring_dir_bytes("/mp/"), b"/mp/\0".to_vec());
    assert_eq!(cstring_dir_bytes("/"), b"/\0".to_vec());
}

#[test]
fn block_span_offsets_and_overflow() {
    assert_eq!(block_span(512, 3, 2), Ok((1536, 1024)));
    assert_eq!(block_span(4096, 0, 1), Ok((0, 4096)));
    assert_eq!(block_span(512, u64::MAX, 1), Err(Error::InvalidArgument));
    assert_eq!(block_span(512, u64::MAX / 512, 1), Err(Error::InvalidArgument));
    assert_eq!(block_span(512, u64::MAX / 512 - 1, 1), Ok(((u64::MAX / 512 - 1) * 512, 512)));
}

#[test]
fn memory_write_then_read_round_trip() {
    let mut dev = memory(512, 4);
    let block: Vec<u8> = (0..512u32).map(|i| (i % 251) as u8).collect();
    assert_eq!(dev.write_blocks(&block, 2, 1), Ok(()));
    let mut out = vec![0u8; 512];
    assert_eq!(dev.read_blocks(&mut out, 2, 1), Ok(()));
    assert_eq!(out, block);
    let mut other = vec![7u8; 512];
    assert_eq!(dev.read_blocks(&mut other, 1, 1), Ok(()));
    assert_eq!(other, vec![0u8; 512]);
    assert_eq!(dev.data().len(), 2048);
    assert_eq!(&dev.data()[1024..1536], &block[..]);
}

#[test]
fn memory_device_errors() {
    let mut dev = memory(512, 4);
    let mut buf = vec![1u8; 512];
    assert_eq!(dev.read_blocks(&mut buf, 4, 1), Err(Error::Io));
    assert_eq!(buf, vec![1u8; 512]);
    assert_eq!(dev.read_blocks(&mut buf, 0, 2), Err(Error::InvalidArgument));
    assert_eq!(dev.write_blocks(&[1u8; 100], 0, 1), Err(Error::InvalidArgument));
    assert_eq!(dev.write_blocks(&[1u8; 1024], 3, 2), Err(Error::Io));
    assert_eq!(dev.data(), &vec![0u8; 2048]);
}

#[test]
fn trampolines_apply_open_and_move_blocks() {
    let mut dev = BlockDevice::new(memory(512, 4));
    assert_eq!(dev.record().block_size, 0);
    assert!(dev.record().scratch.is_none());
    assert_eq!(dev.open(), EOK);
    assert_eq!(dev.record().block_size, 512);
    assert_eq!(dev.record().block_count, 4);
    assert_eq!(dev.record().part_size, 2048);
    assert_eq!(dev.record().scratch.as_ref().map(|s| s.len()), Some(512));
    let block = vec![9u8; 1024];
    assert_eq!(dev.bwrite(&block, 1, 2), EOK);
    let mut out = vec![0u8; 1024];
    assert_eq!(dev.bread(&mut out, 1, 2), EOK);
    assert_eq!(out, block);
    let mut past = vec![0u8; 1024];
    assert_eq!(dev.bread(&mut past, 3, 2), Error::Io.code());
    assert_eq!(dev.lock(), EOK);
    assert_eq!(dev.unlock(), EOK);
    assert_eq!(dev.close(), EOK);
    let inner = dev.into_interface();
    assert_eq!(&inner.data()[512..1536], &block[..]);
}

#[test]
fn failed_open_leaves_record() {
    let mut backend = Counting::new();
    backend.fail_open = Some(Error::NoDevice);
    let mut dev = BlockDevice::new(backend);
    assert_eq!(dev.open(), Error::NoDevice.code());
    assert_eq!(dev.record().block_size, 0);
    assert!(dev.record().scratch.is_none());
    assert_eq!(dev.unlock(), Error::NotSupported.code());
    assert_eq!(dev.interface().opens, 1);
    dev.interface_mut().fail_open = None;
    assert_eq!(dev.apply_open(Ok(config(1024, 2))), EOK);
    assert_eq!(dev.record().scratch.as_ref().map(|s| s.len()), Some(1024));
    assert_eq!(dev.apply_open(Err(Error::Io)), 5);
    assert_eq!(dev.record().block_size, 1024);
}

#[test]
fn register_same_name_collides() {
    let mut registry = DeviceRegistry::new();
    let first = BlockDevice::new(memory(512, 4)).register(&mut registry, "a".to_string());
    assert!(first.is_ok());
    assert!(registry.is_registered("a"));
    let second = BlockDevice::new(memory(512, 4)).register(&mut registry, "a".to_string());
    assert!(matches!(second, Err(Error::FileExists)));
    let third = BlockDevice::new(memory(512, 4)).register(&mut registry, "b".to_string());
    assert!(third.is_ok());
    assert_eq!(registry.device_count(), 2);
    assert_eq!(third.as_ref().ok().map(|h| h.name().clone()), Some(b"b\0".to_vec()));
}

#[test]
fn register_rejects_bad_names() {
    let mut registry = DeviceRegistry::new();
    let empty = BlockDevice::new(memory(512, 1)).register(&mut registry, String::new());
    assert!(matches!(empty, Err(Error::InvalidArgument)));
    let nul = BlockDevice::new(memory(512, 1)).register(&mut registry, "a\0b".to_string());
    assert!(matches!(nul, Err(Error::InvalidArgument)));
    assert_eq!(registry.device_count(), 0);
}

#[test]
fn unregister_frees_the_name() {
    let mut registry = DeviceRegistry::new();
    let handle = match BlockDevice::new(memory(512, 4)).register(&mut registry, "dev".to_string()) {
        Ok(h) => h,
        Err(e) => panic!("register failed: {:?}", e),
    };
    let device = handle.unregister(&mut registry);
    assert!(!registry.is_registered("dev"));
    assert_eq!(registry.device_count(), 0);
    let again = device.register(&mut registry, "dev".to_string());
    assert!(again.is_ok());
}

#[test]
fn mount_and_umount_open_and_close_once() {
    let mut registry = DeviceRegistry::new();
    let mut handle = match BlockDevice::new(Counting::new()).register(&mut registry, "a".to_string()) {
        Ok(h) => h,
        Err(e) => panic!("register failed: {:?}", e),
    };
    {
        let mounted = match handle.mount(&mut registry, "/mp", false) {
            Ok(m) => m,
            Err(e) => panic!("mount failed: {:?}", e),
        };
        assert_eq!(mounted.mount_point(), &b"/mp/\0".to_vec());
        assert!(!mounted.read_only());
        assert_eq!(registry.mount_count(), 1);
        assert_eq!(mounted.umount(&mut registry), Ok(()));
    }
    assert_eq!(registry.mount_count(), 0);
    assert_eq!(handle.device().interface().opens, 1);
    assert_eq!(handle.device().interface().closes, 1);
    {
        let mounted = match handle.mount(&mut registry, "/mp", true) {
            Ok(m) => m,
            Err(e) => panic!("mount failed: {:?}", e),
        };
        assert!(mounted.read_only());
        assert_eq!(mounted.umount(&mut registry), Ok(()));
    }
    let device = handle.unregister(&mut registry);
    assert_eq!(registry.device_count(), 0);
    let backend = device.into_interface();
    assert_eq!(backend.opens, 2);
    assert_eq!(backend.closes, 2);
}

#[test]
fn mount_point_in_use_is_refused() {
    let mut registry = DeviceRegistry::new();
    let mut a = match BlockDevice::new(Counting::new()).register(&mut registry, "a".to_string()) {
        Ok(h) => h,
        Err(e) => panic!("register failed: {:?}", e),
    };
    let mut b = match BlockDevice::new(Counting::new()).register(&mut registry, "b".to_string()) {
        Ok(h) => h,
        Err(e) => panic!("register failed: {:?}", e),
    };
    let first = match a.mount(&mut registry, "/mp", false) {
        Ok(m) => m,
        Err(e) => panic!("mount failed: {:?}", e),
    };
    assert!(matches!(b.mount(&mut registry, "/mp", false), Err(Error::FileExists)));
    assert_eq!(registry.mount_count(), 1);
    assert_eq!(first.umount(&mut registry), Ok(()));
    assert!(b.mount(&mut registry, "/mp", false).is_ok());
    assert_eq!(b.device().interface().opens, 1);
}

#[test]
fn mount_reports_open_failure() {
    let mut registry = DeviceRegistry::new();
    let mut backend = Counting::new();
    backend.fail_open = Some(Error::Io);
    let mut handle = match BlockDevice::new(backend).register(&mut registry, "a".to_string()) {
        Ok(h) => h,
        Err(e) => panic!("register failed: {:?}", e),
    };
    assert!(matches!(handle.mount(&mut registry, "/mp", false), Err(Error::Io)));
    assert_eq!(registry.mount_count(), 0);
    assert!(handle.device().record().scratch.is_none());
}

fn entry(name: &str, tag: u8, parent: &str) -> DirEntry {
    DirEntry::new(7, tag, name.to_string(), parent.to_string())
}

#[test]
fn dir_entry_snapshot() {
    let e = entry("file.txt\0\0\0", 1, "/mp");
    assert_eq!(e.name(), "file.txt");
    assert_eq!(e.path(), "/mp/file.txt");
    assert_eq!(e.inode(), 7);
    assert!(e.file_type().is_file());
    assert!(!e.file_type().is_dir());
    let d = entry("sub", 2, "/mp/");
    assert_eq!(d.path(), "/mp/sub");
    assert!(d.file_type().is_dir());
    assert!(FileType(0).is_symlink());
    assert_eq!(trim_nul_str("\0\0ab\0"), "ab");
    assert_eq!(trim_nul_str("\0\0"), "");
    assert_eq!(Metadata::new(FileType(2)).file_type(), Ok(FileType(2)));
}

#[test]
fn read_dir_cursor_yields_snapshots() {
    let cursor = ReadDir::new("/mp".to_string());
    assert_eq!(cursor.path(), "/mp");
    assert!(cursor.next_entry(None).is_none());
    let e = cursor.next_entry(Some((11, 2, "mold\0".to_string()))).unwrap();
    assert_eq!(e.name(), "mold");
    assert_eq!(e.path(), "/mp/mold");
    assert_eq!(e.inode(), 11);
}

#[test]
fn split_parent_cases() {
    assert_eq!(split_parent("/mp/mold"), Ok(("/mp".to_string(), "mold".to_string())));
    assert_eq!(split_parent("/mold"), Ok(("/".to_string(), "mold".to_string())));
    assert_eq!(split_parent("mold"), Ok((String::new(), "mold".to_string())));
    assert_eq!(split_parent("/mp/"), Err(Error::InvalidArgument));
    assert_eq!(split_parent(""), Err(Error::InvalidArgument));
}

#[test]
fn rename_picks_primitive_from_listing() {
    let listing = vec![
        entry(".", 2, "/mp"),
        entry("..", 2, "/mp"),
        entry("mold", 2, "/mp"),
        entry("write_test.txt", 1, "/mp"),
    ];
    assert_eq!(rename_kind(&listing, "mold"), Ok(RenameKind::Directory));
    assert_eq!(rename_kind(&listing, "mold\0"), Ok(RenameKind::Directory));
    assert_eq!(rename_kind(&listing, "write_test.txt"), Ok(RenameKind::File));
    assert_eq!(rename_kind(&listing, "missing"), Err(Error::NoEntry));
    let renamed = vec![entry("mold_mv", 2, "/mp")];
    assert_eq!(rename_kind(&renamed, "mold"), Err(Error::NoEntry));
    assert_eq!(rename_kind(&renamed, "mold_mv"), Ok(RenameKind::Directory));
}

#[test]
fn removal_steps_for_nested_tree() {
    let listing = vec![
        entry(".", 2, "/mp/top"),
        entry("..", 2, "/mp/top"),
        entry("file.txt", 1, "/mp/top"),
        entry("nested", 2, "/mp/top"),
    ];
    let steps: Vec<Option<Removal>> = listing.iter().map(removal_for).collect();
    assert!(steps[0].is_none());
    assert!(steps[1].is_none());
    assert!(matches!(&steps[2], Some(Removal::RemoveFile(p)) if p == "/mp/top/file.txt"));
    assert!(matches!(&steps[3], Some(Removal::Recurse(p)) if p == "/mp/top/nested"));
}

#[test]
fn seek_origins_map_one_to_one() {
    assert_eq!(seek_args(SeekFrom::Start(10)), Ok((SEEK_SET, 10)));
    assert_eq!(seek_args(SeekFrom::End(-4)), Ok((SEEK_END, -4)));
    assert_eq!(seek_args(SeekFrom::Current(3)), Ok((SEEK_CUR, 3)));
    assert_eq!(seek_args(SeekFrom::Start(u64::MAX)), Err(Error::InvalidArgument));
    assert_eq!((SEEK_SET, SEEK_CUR, SEEK_END), (0, 1, 2));
}

#[test]
fn partition_geometry() {
    let c = BlockDeviceConfig::for_partition(512, 2048, 4096).unwrap();
    assert_eq!(c.block_size, 512);
    assert_eq!(c.block_count, 4096);
    assert_eq!(c.part_size, 512 * 4096);
    assert_eq!(c.part_offset, 512 * 2048);
    assert!(BlockDeviceConfig::for_partition(512, u64::MAX, 1).is_none());
    assert!(BlockDeviceConfig::for_partition(512, 0, u64::MAX).is_none());
}

#[test]
fn rename_call_for_directory_and_missing_source() {
    let listing = vec![entry("mold", 2, "/mp"), entry("notes.txt", 1, "/mp")];
    let call = rename_call("/mp/mold", "/mp/mold_mv", &listing).ok().unwrap();
    assert_eq!(call.kind, RenameKind::Directory);
    assert_eq!(call.from, b"/mp/mold\0".to_vec());
    assert_eq!(call.to, b"/mp/mold_mv\0".to_vec());
    let file = rename_call("/mp/notes.txt", "/mp/n.txt", &listing).ok().unwrap();
    assert_eq!(file.kind, RenameKind::File);
    assert!(matches!(rename_call("/mp/absent", "/mp/x", &listing), Err(Error::NoEntry)));
    assert!(matches!(rename_call("/mp/", "/mp/x", &listing), Err(Error::InvalidArgument)));
}

#[test]
fn removal_plan_empties_nested_tree() {
    let top = vec![
        entry(".", 2, "/mp/top"),
        entry("..", 2, "/mp/top"),
        entry("file.txt", 1, "/mp/top"),
        entry("nested", 2, "/mp/top"),
    ];
    let plan = removal_plan(&top);
    assert_eq!(plan.len(), 2);
    assert!(matches!(&plan[0], Removal::RemoveFile(p) if p == "/mp/top/file.txt"));
    assert!(matches!(&plan[1], Removal::Recurse(p) if p == "/mp/top/nested"));
    let nested = vec![entry(".", 2, "/mp/top/nested"), entry("..", 2, "/mp/top/nested")];
    assert!(removal_plan(&nested).is_empty());
    assert!(removal_plan(&Vec::new()).is_empty());
}
