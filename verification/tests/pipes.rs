//! Pipes: the round trip, blocking, and the FIONREAD query.

use kernel_core::{
    boot_kernel, file_read, file_write, pipe_create, InitFileSystem, IoctlResult, Kernel,
    KernelDataBounds, PipeCollection, PipeFileSystem, SystemError, FIONREAD, PIPE_CAPACITY,
};

fn boot() -> Kernel {
    let bounds = KernelDataBounds { ro_start: 0x10_0000, rw_end: 0x20_0000, stack_start: 0x9_f000 };
    boot_kernel(0x100_0000, 0x10_0000, 0xc040_0000, &bounds, InitFileSystem::new(Vec::new()))
        .unwrap()
}

#[test]
fn pipe_round_trip_preserves_the_bytes() {
    let mut k = boot();
    let (rd, wr) = pipe_create(&mut k).unwrap();
    let message = b"TEST THE PIPE";
    assert_eq!(file_write(&mut k, wr.as_u32(), message), Ok(13));
    let bytes = file_read(&mut k, rd.as_u32(), 13).unwrap();
    assert_eq!(bytes, message.to_vec());
}

#[test]
fn pipe_reads_are_first_in_first_out() {
    let mut k = boot();
    let (rd, wr) = pipe_create(&mut k).unwrap();
    file_write(&mut k, wr.as_u32(), b"ABC").unwrap();
    file_write(&mut k, wr.as_u32(), b"DEF").unwrap();
    assert_eq!(file_read(&mut k, rd.as_u32(), 2).unwrap(), b"AB".to_vec());
    assert_eq!(file_read(&mut k, rd.as_u32(), 4).unwrap(), b"CDEF".to_vec());
}

#[test]
fn reading_an_empty_pipe_would_block() {
    let mut k = boot();
    let (rd, _wr) = pipe_create(&mut k).unwrap();
    assert_eq!(file_read(&mut k, rd.as_u32(), 1), Err(SystemError::WouldBlock));
}

#[test]
fn writing_a_full_pipe_would_block() {
    let mut k = boot();
    let (rd, wr) = pipe_create(&mut k).unwrap();
    let big = vec![0x41u8; PIPE_CAPACITY];
    assert_eq!(file_write(&mut k, wr.as_u32(), &big), Ok(PIPE_CAPACITY));
    assert_eq!(file_write(&mut k, wr.as_u32(), b"X"), Err(SystemError::WouldBlock));
    // Space opens up again after a read.
    assert_eq!(file_read(&mut k, rd.as_u32(), 16).unwrap().len(), 16);
    assert_eq!(file_write(&mut k, wr.as_u32(), b"X"), Ok(1));
}

#[test]
fn overfull_write_takes_the_prefix_that_fits() {
    let mut k = boot();
    let (_rd, wr) = pipe_create(&mut k).unwrap();
    let big = vec![0x42u8; PIPE_CAPACITY + 100];
    assert_eq!(file_write(&mut k, wr.as_u32(), &big), Ok(PIPE_CAPACITY));
}

#[test]
fn pipe_ends_are_not_interchangeable() {
    let mut k = boot();
    let (rd, wr) = pipe_create(&mut k).unwrap();
    assert_eq!(file_write(&mut k, rd.as_u32(), b"X"), Err(SystemError::BadHandle));
    assert_eq!(file_read(&mut k, wr.as_u32(), 1), Err(SystemError::BadHandle));
}

#[test]
fn two_pipes_do_not_mix() {
    let mut k = boot();
    let (rd1, wr1) = pipe_create(&mut k).unwrap();
    let (rd2, wr2) = pipe_create(&mut k).unwrap();
    file_write(&mut k, wr1.as_u32(), b"ONE").unwrap();
    file_write(&mut k, wr2.as_u32(), b"TWO").unwrap();
    assert_eq!(file_read(&mut k, rd2.as_u32(), 3).unwrap(), b"TWO".to_vec());
    assert_eq!(file_read(&mut k, rd1.as_u32(), 3).unwrap(), b"ONE".to_vec());
}

#[test]
fn fionread_reports_the_buffered_bytes() {
    let mut collection = PipeCollection::new();
    let (rd, wr) = collection.create().unwrap();
    collection.write(wr, b"HELLO").unwrap();
    let mut fs = PipeFileSystem::new(collection);
    assert_eq!(fs.ioctl(rd, FIONREAD, 0), Ok(IoctlResult::StoreToArg(5)));
    assert_eq!(fs.ioctl(wr, FIONREAD, 0), Ok(IoctlResult::StoreToArg(5)));
    // Any other command is not implemented.
    assert_eq!(fs.ioctl(rd, 1, 0), Err(SystemError::UnsupportedCommand));
}

#[test]
fn pipe_paths_cannot_be_opened() {
    let mut k = boot();
    assert_eq!(
        kernel_core::open_path(&mut k, b"PIPE:\\ANY"),
        Err(SystemError::UnsupportedCommand)
    );
}

#[test]
fn pipe_ends_cannot_be_duplicated() {
    let mut k = boot();
    let (rd, wr) = pipe_create(&mut k).unwrap();
    assert_eq!(
        kernel_core::file_dup(&mut k, rd.as_u32(), 0xffff_ffff),
        Err(SystemError::UnsupportedCommand)
    );
    assert_eq!(
        kernel_core::file_dup(&mut k, wr.as_u32(), 5),
        Err(SystemError::UnsupportedCommand)
    );
}
