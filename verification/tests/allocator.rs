//! The physical frame allocator: free counts, exhaustion, reuse.

use kernel_core::{Frame, FrameAllocator};

fn small_allocator() -> FrameAllocator {
    // Sixteen frames of physical memory, the first four reserved.
    let mut a = FrameAllocator::new();
    a.init(0x10000, 0x4000);
    a
}

#[test]
fn count_free_matches_bitmap() {
    let mut a = small_allocator();
    assert_eq!(a.count_frames(), 16);
    assert_eq!(a.count_free_frames(), 12);
    let f = a.allocate().unwrap();
    assert_eq!(a.count_free_frames(), 11);
    assert!(!a.is_free(f));
    a.free(f);
    assert_eq!(a.count_free_frames(), 12);
    assert!(a.is_free(f));
}

#[test]
fn reserved_frames_never_returned() {
    let mut a = small_allocator();
    for _ in 0..12 {
        let f = a.allocate().unwrap();
        assert!(f.get_address() >= 0x4000);
    }
}

#[test]
fn allocate_when_exhausted_fails_and_changes_nothing() {
    let mut a = small_allocator();
    for _ in 0..12 {
        a.allocate().unwrap();
    }
    assert_eq!(a.count_free_frames(), 0);
    let r = a.allocate();
    assert_eq!(r, Err(kernel_core::SystemError::OutOfResources));
    // The bitmap is untouched: still sixteen frames, none free.
    assert_eq!(a.count_frames(), 16);
    assert_eq!(a.count_free_frames(), 0);
}

#[test]
fn freed_frame_is_reused() {
    let mut a = small_allocator();
    for _ in 0..12 {
        a.allocate().unwrap();
    }
    let victim = Frame::new(0x8000);
    a.free(victim);
    let again = a.allocate().unwrap();
    assert_eq!(again.get_address(), 0x8000);
}

#[test]
fn release_ignores_reserved_and_free_frames() {
    let mut a = small_allocator();
    // Releasing a reserved frame changes nothing.
    a.release(Frame::new(0x1000));
    assert_eq!(a.count_free_frames(), 12);
    // Releasing an already-free frame changes nothing.
    a.release(Frame::new(0x8000));
    assert_eq!(a.count_free_frames(), 12);
    // Releasing an allocated frame frees it.
    let f = a.allocate().unwrap();
    a.release(f);
    assert_eq!(a.count_free_frames(), 12);
}

#[test]
fn error_codes_are_negative() {
    assert_eq!(kernel_core::SystemError::Unknown.to_code(), 0xffff_ffff);
    assert_eq!(kernel_core::SystemError::UnsupportedCommand.to_code(), 0xffff_fffe);
    assert_eq!(kernel_core::SystemError::BadHandle.to_code(), 0xffff_fffd);
    assert_eq!(kernel_core::SystemError::BadAddress.to_code(), 0xffff_fffc);
    assert_eq!(kernel_core::SystemError::NotFound.to_code(), 0xffff_fffb);
    assert_eq!(kernel_core::SystemError::NoPermission.to_code(), 0xffff_fffa);
    assert_eq!(kernel_core::SystemError::OutOfResources.to_code(), 0xffff_fff9);
    assert_eq!(kernel_core::SystemError::WouldBlock.to_code(), 0xffff_fff8);
    assert!(kernel_core::SystemError::Unknown.to_code() >= 0x8000_0000);
}
