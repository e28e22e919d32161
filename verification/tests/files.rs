//! The file layer: paths, device files, handles, duplication, the boot
//! archive.

use kernel_core::{
    boot_kernel, file_close, file_dup, file_read, file_write, open_path, InitFile, InitFileSystem,
    Kernel, KernelDataBounds, SeekMethod, SystemError,
};

fn boot() -> Kernel {
    let bounds = KernelDataBounds { ro_start: 0x10_0000, rw_end: 0x20_0000, stack_start: 0x9_f000 };
    let files = vec![
        InitFile { name: b"BOOT.TXT".to_vec(), data: b"HELLO, WORLD".to_vec() },
        InitFile { name: b"KERNEL.BIN".to_vec(), data: vec![0xaa; 32] },
    ];
    boot_kernel(0x100_0000, 0x10_0000, 0xc040_0000, &bounds, InitFileSystem::new(files)).unwrap()
}

fn open_count(k: &Kernel) -> usize {
    let i = k.processes.index_of(k.processes.current.as_u32()).unwrap();
    k.processes.processes[i].open_files.count()
}

#[test]
fn zero_device_reads_zero_bytes() {
    let mut k = boot();
    let fh = open_path(&mut k, b"DEV:\\ZERO").unwrap();
    let bytes = file_read(&mut k, fh.as_u32(), 1).unwrap();
    assert_eq!(bytes, vec![0u8]);
    let more = file_read(&mut k, fh.as_u32(), 16).unwrap();
    assert_eq!(more, vec![0u8; 16]);
    assert_eq!(file_close(&mut k, fh.as_u32()), Ok(()));
}

#[test]
fn paths_are_case_insensitive() {
    let mut k = boot();
    let fh = open_path(&mut k, b"dev:\\zero").unwrap();
    let bytes = file_read(&mut k, fh.as_u32(), 4).unwrap();
    assert_eq!(bytes, vec![0u8; 4]);
    let fh2 = open_path(&mut k, b"Init:\\boot.txt").unwrap();
    let bytes = file_read(&mut k, fh2.as_u32(), 5).unwrap();
    assert_eq!(bytes, b"HELLO".to_vec());
}

#[test]
fn leading_backslash_is_optional() {
    let mut k = boot();
    let fh = open_path(&mut k, b"DEV:ZERO").unwrap();
    assert_eq!(file_read(&mut k, fh.as_u32(), 2).unwrap(), vec![0u8, 0u8]);
}

#[test]
fn missing_paths_are_not_found() {
    let mut k = boot();
    assert_eq!(open_path(&mut k, b"DEV:\\NOPE"), Err(SystemError::NotFound));
    assert_eq!(open_path(&mut k, b"NOSUCH:\\X"), Err(SystemError::NotFound));
    assert_eq!(open_path(&mut k, b"NOCOLONHERE"), Err(SystemError::NotFound));
    assert_eq!(open_path(&mut k, b"TOOLONG:\\X"), Err(SystemError::NotFound));
}

#[test]
fn read_after_close_is_a_bad_handle() {
    let mut k = boot();
    let fh = open_path(&mut k, b"DEV:\\ZERO").unwrap();
    assert!(file_read(&mut k, fh.as_u32(), 1).is_ok());
    file_close(&mut k, fh.as_u32()).unwrap();
    assert_eq!(file_read(&mut k, fh.as_u32(), 1), Err(SystemError::BadHandle));
    assert_eq!(file_close(&mut k, fh.as_u32()), Err(SystemError::BadHandle));
}

#[test]
fn open_then_close_restores_the_handle_count() {
    let mut k = boot();
    assert_eq!(open_count(&k), 0);
    let fh = open_path(&mut k, b"DEV:\\ZERO").unwrap();
    assert_eq!(open_count(&k), 1);
    file_close(&mut k, fh.as_u32()).unwrap();
    assert_eq!(open_count(&k), 0);
}

#[test]
fn repeated_open_and_read_returns_zeroes_each_time() {
    let mut k = boot();
    for n in 1..4usize {
        let fh = open_path(&mut k, b"DEV:\\ZERO").unwrap();
        let bytes = file_read(&mut k, fh.as_u32(), n).unwrap();
        assert_eq!(bytes, vec![0u8; n]);
        file_close(&mut k, fh.as_u32()).unwrap();
    }
}

#[test]
fn handles_are_allocated_lowest_vacant_first() {
    let mut k = boot();
    let a = open_path(&mut k, b"DEV:\\ZERO").unwrap();
    let b = open_path(&mut k, b"DEV:\\ZERO").unwrap();
    let c = open_path(&mut k, b"DEV:\\ZERO").unwrap();
    assert_eq!((a.as_u32(), b.as_u32(), c.as_u32()), (0, 1, 2));
    file_close(&mut k, 1).unwrap();
    let again = open_path(&mut k, b"DEV:\\ZERO").unwrap();
    assert_eq!(again.as_u32(), 1);
}

#[test]
fn dup_to_an_explicit_handle_leaves_the_original_open() {
    let mut k = boot();
    let original = open_path(&mut k, b"DEV:\\COM1").unwrap();
    let copy = file_dup(&mut k, original.as_u32(), 5).unwrap();
    assert_eq!(copy.as_u32(), 5);
    // Writing through either end reaches the same device.
    assert_eq!(file_write(&mut k, original.as_u32(), b"C"), Ok(1));
    assert_eq!(file_write(&mut k, 5, b"C"), Ok(1));
    // Closing the copy does not close the original.
    file_close(&mut k, 5).unwrap();
    assert_eq!(file_write(&mut k, 5, b"X"), Err(SystemError::BadHandle));
    assert_eq!(file_write(&mut k, original.as_u32(), b"STILL OPEN"), Ok(10));
    assert!(file_read(&mut k, original.as_u32(), 1).is_ok());
}

#[test]
fn dup_without_a_destination_takes_the_lowest_vacant_handle() {
    let mut k = boot();
    let original = open_path(&mut k, b"DEV:\\ZERO").unwrap();
    let copy = file_dup(&mut k, original.as_u32(), 0xffff_ffff).unwrap();
    assert_eq!(copy.as_u32(), 1);
    assert_eq!(file_read(&mut k, copy.as_u32(), 3).unwrap(), vec![0u8; 3]);
}

#[test]
fn dup_of_a_closed_handle_fails() {
    let mut k = boot();
    assert_eq!(file_dup(&mut k, 9, 0xffff_ffff), Err(SystemError::BadHandle));
}

#[test]
fn archive_files_read_in_order_and_seek() {
    let mut k = boot();
    let fh = open_path(&mut k, b"INIT:\\BOOT.TXT").unwrap();
    assert_eq!(file_read(&mut k, fh.as_u32(), 5).unwrap(), b"HELLO".to_vec());
    assert_eq!(file_read(&mut k, fh.as_u32(), 2).unwrap(), b", ".to_vec());
    assert_eq!(file_read(&mut k, fh.as_u32(), 99).unwrap(), b"WORLD".to_vec());
    // At the end there is nothing left.
    assert_eq!(file_read(&mut k, fh.as_u32(), 8).unwrap(), Vec::<u8>::new());
}

#[test]
fn archive_is_read_only() {
    let mut k = boot();
    let fh = open_path(&mut k, b"INIT:\\BOOT.TXT").unwrap();
    assert_eq!(file_write(&mut k, fh.as_u32(), b"NO"), Err(SystemError::NoPermission));
}

#[test]
fn archive_seek_clamps_to_the_file() {
    let files = vec![InitFile { name: b"A".to_vec(), data: b"0123456789".to_vec() }];
    let mut fs = InitFileSystem::new(files);
    let h = fs.open(b"A").unwrap();
    assert_eq!(fs.seek(h, SeekMethod::Absolute(4)), Ok(4));
    assert_eq!(fs.read(h, 2).unwrap(), b"45".to_vec());
    assert_eq!(fs.seek(h, SeekMethod::Relative(-3)), Ok(3));
    assert_eq!(fs.seek(h, SeekMethod::Relative(-99)), Ok(0));
    assert_eq!(fs.seek(h, SeekMethod::FromEnd(-1)), Ok(9));
    assert_eq!(fs.seek(h, SeekMethod::Absolute(500)), Ok(10));
    assert_eq!(fs.read(h, 1).unwrap(), Vec::<u8>::new());
}

#[test]
fn archive_directory_listing() {
    let mut k = boot();
    // Listing goes through the filesystem itself; the root is the only
    // directory.
    let init_drive = k.drives.get_drive_number_by_name(b"INIT").unwrap();
    match &mut k.drives.drives[init_drive].fs {
        kernel_core::FileSystemKind::Init(fs) => {
            let d = fs.open_dir(b"\\").unwrap();
            let first = fs.read_dir(d, 0).unwrap();
            assert_eq!(first.name, b"BOOT.TXT".to_vec());
            assert_eq!(first.byte_size, 12);
            let second = fs.read_dir(d, 1).unwrap();
            assert_eq!(second.name, b"KERNEL.BIN".to_vec());
            assert_eq!(second.byte_size, 32);
            assert!(matches!(fs.read_dir(d, 2), Err(SystemError::NotFound)));
            assert_eq!(fs.open_dir(b"\\SUB"), Err(SystemError::NotFound));
        },
        _ => panic!("INIT is not the archive"),
    }
}

#[test]
fn archive_dup_shares_the_cursor_at_the_moment_of_the_call() {
    let files = vec![InitFile { name: b"A".to_vec(), data: b"abcdef".to_vec() }];
    let mut fs = InitFileSystem::new(files);
    let h = fs.open(b"A").unwrap();
    assert_eq!(fs.read(h, 2).unwrap(), b"ab".to_vec());
    let h2 = fs.dup(h).unwrap();
    assert_eq!(fs.read(h2, 2).unwrap(), b"cd".to_vec());
    // The two cursors are independent after the duplication.
    assert_eq!(fs.read(h, 2).unwrap(), b"cd".to_vec());
    fs.close(h).unwrap();
    assert_eq!(fs.read(h, 1), Err(SystemError::BadHandle));
    assert_eq!(fs.read(h2, 2).unwrap(), b"ef".to_vec());
}
