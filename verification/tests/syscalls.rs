//! The dispatcher: the method table, user-pointer checks, and the
//! register convention.

use kernel_core::{
    boot_kernel, handle_syscall, switch_to, update_timeouts, InitFileSystem, Kernel,
    KernelDataBounds, ProcessID, RunState, SavedRegisters, StackFrame, SystemError, UserMemory,
};

// The hand-constructed processes own the user stack region at this address.
const USER_BASE: u32 = 0xbfff_e000;

fn boot() -> (Kernel, UserMemory, StackFrame) {
    let bounds = KernelDataBounds { ro_start: 0x10_0000, rw_end: 0x20_0000, stack_start: 0x9_f000 };
    let files = vec![kernel_core::InitFile {
        name: b"BOOT.TXT".to_vec(),
        data: b"HELLO".to_vec(),
    }];
    let k = boot_kernel(0x100_0000, 0x10_0000, 0xc040_0000, &bounds, InitFileSystem::new(files))
        .unwrap();
    let mem = UserMemory::new(USER_BASE, vec![0u8; 0x2000]);
    let frame = StackFrame { eip: 0x40_0000, cs: 0x1b, eflags: 0x200 };
    (k, mem, frame)
}

fn regs(eax: u32, ebx: u32, ecx: u32, edx: u32) -> SavedRegisters {
    SavedRegisters { edi: 7, esi: 6, ebp: 5, ebx, edx, ecx, eax }
}

#[test]
fn debug_syscall_returns_zero() {
    let (mut k, mut mem, frame) = boot();
    let mut r = regs(0xffff, 0, 0, 0);
    assert!(handle_syscall(&mut k, &mut mem, &frame, &mut r));
    assert_eq!(r.eax, 0);
}

#[test]
fn unknown_method_returns_unknown() {
    let (mut k, mut mem, frame) = boot();
    for method in [0x0a, 0x0f, 0x42, 0x2b, 0x1000, 0xfffe] {
        let mut r = regs(method, 1, 2, 3);
        assert!(handle_syscall(&mut k, &mut mem, &frame, &mut r));
        assert_eq!(r.eax, SystemError::Unknown.to_code());
    }
}

#[test]
fn reserved_methods_are_unsupported() {
    let (mut k, mut mem, frame) = boot();
    for method in [0x02, 0x04, 0x07, 0x08, 0x14, 0x15, 0x1b, 0x1c, 0x30, 0x33] {
        let mut r = regs(method, 1, 2, 3);
        assert!(handle_syscall(&mut k, &mut mem, &frame, &mut r));
        assert_eq!(r.eax, SystemError::UnsupportedCommand.to_code());
    }
}

#[test]
fn registers_other_than_a_are_preserved() {
    let (mut k, mut mem, frame) = boot();
    let mut r = regs(0xffff, 11, 22, 33);
    handle_syscall(&mut k, &mut mem, &frame, &mut r);
    assert_eq!((r.edi, r.esi, r.ebp, r.ebx, r.ecx, r.edx), (7, 6, 5, 11, 22, 33));
}

#[test]
fn get_pid_reports_the_current_process() {
    let (mut k, mut mem, frame) = boot();
    let mut r = regs(0x03, 0, 0, 0);
    handle_syscall(&mut k, &mut mem, &frame, &mut r);
    assert_eq!(r.eax, 0);
}

#[test]
fn open_and_read_through_user_memory() {
    let (mut k, mut mem, frame) = boot();
    // The string itself at USER_BASE + 0x100.
    mem.write_bytes(USER_BASE + 0x100, b"DEV:\\ZERO");
    // The {pointer, length} pair at USER_BASE.
    mem.write_u32(USER_BASE, USER_BASE + 0x100);
    mem.write_u32(USER_BASE + 4, 9);
    let mut r = regs(0x10, USER_BASE, 0, 0);
    assert!(handle_syscall(&mut k, &mut mem, &frame, &mut r));
    assert_eq!(r.eax, 0, "the first handle of the process");
    // Read four bytes of zeroes into USER_BASE + 0x200.
    mem.write_bytes(USER_BASE + 0x200, b"????");
    let mut r = regs(0x12, 0, USER_BASE + 0x200, 4);
    assert!(handle_syscall(&mut k, &mut mem, &frame, &mut r));
    assert_eq!(r.eax, 4);
    assert_eq!(mem.read_bytes(USER_BASE + 0x200, 4), vec![0u8; 4]);
    // Close it; a second close is a bad handle.
    let mut r = regs(0x11, 0, 0, 0);
    assert!(handle_syscall(&mut k, &mut mem, &frame, &mut r));
    assert_eq!(r.eax, 0);
    let mut r = regs(0x11, 0, 0, 0);
    assert!(handle_syscall(&mut k, &mut mem, &frame, &mut r));
    assert_eq!(r.eax, SystemError::BadHandle.to_code());
}

#[test]
fn bad_pointers_are_rejected() {
    let (mut k, mut mem, frame) = boot();
    // A buffer outside every region.
    let mut r = regs(0x12, 0, 0x1000, 4);
    assert!(handle_syscall(&mut k, &mut mem, &frame, &mut r));
    assert_eq!(r.eax, SystemError::BadAddress.to_code());
    // A buffer crossing into the kernel window.
    let mut r = regs(0x12, 0, 0xbfff_fffc, 16);
    assert!(handle_syscall(&mut k, &mut mem, &frame, &mut r));
    assert_eq!(r.eax, SystemError::BadAddress.to_code());
    // A string descriptor pointing at kernel memory.
    mem.write_u32(USER_BASE, 0xc000_0000);
    mem.write_u32(USER_BASE + 4, 4);
    let mut r = regs(0x10, USER_BASE, 0, 0);
    assert!(handle_syscall(&mut k, &mut mem, &frame, &mut r));
    assert_eq!(r.eax, SystemError::BadAddress.to_code());
}

#[test]
fn pipe_syscall_round_trip() {
    let (mut k, mut mem, frame) = boot();
    let mut r = regs(0x1f, USER_BASE, USER_BASE + 4, 0);
    assert!(handle_syscall(&mut k, &mut mem, &frame, &mut r));
    assert_eq!(r.eax, 0);
    let rd = mem.read_u32(USER_BASE);
    let wr = mem.read_u32(USER_BASE + 4);
    assert_ne!(rd, wr);
    // Write "TEST THE PIPE" through the write end.
    mem.write_bytes(USER_BASE + 0x100, b"TEST THE PIPE");
    let mut r = regs(0x13, wr, USER_BASE + 0x100, 13);
    assert!(handle_syscall(&mut k, &mut mem, &frame, &mut r));
    assert_eq!(r.eax, 13);
    // Read it back through the read end.
    let mut r = regs(0x12, rd, USER_BASE + 0x200, 13);
    assert!(handle_syscall(&mut k, &mut mem, &frame, &mut r));
    assert_eq!(r.eax, 13);
    assert_eq!(mem.read_bytes(USER_BASE + 0x200, 13), b"TEST THE PIPE".to_vec());
}

#[test]
fn reading_an_empty_pipe_blocks_the_caller() {
    let (mut k, mut mem, frame) = boot();
    let mut r = regs(0x1f, USER_BASE, USER_BASE + 4, 0);
    handle_syscall(&mut k, &mut mem, &frame, &mut r);
    let rd = mem.read_u32(USER_BASE);
    let mut r = regs(0x12, rd, USER_BASE + 0x200, 4);
    // The call does not complete; the trap handler would yield and retry.
    assert!(!handle_syscall(&mut k, &mut mem, &frame, &mut r));
    assert_eq!(r.eax, 0x12, "a blocked call leaves the registers alone");
}

#[test]
fn fork_child_writes_and_parent_reaps() {
    let (mut k, mut mem, frame) = boot();
    // The parent forks.
    let mut r = regs(0x01, 0, 0, 0);
    assert!(handle_syscall(&mut k, &mut mem, &frame, &mut r));
    let child = r.eax;
    assert_eq!(child, 1);
    // Waiting before the child exits does not complete.
    let mut r = regs(0x09, child, USER_BASE + 0x40, 0);
    assert!(!handle_syscall(&mut k, &mut mem, &frame, &mut r));
    // The child runs: opens the serial port, writes one byte, and exits
    // with code 0x10.
    switch_to(&mut k.processes, &ProcessID::new(child));
    mem.write_bytes(USER_BASE + 0x100, b"DEV:\\COM1");
    mem.write_u32(USER_BASE, USER_BASE + 0x100);
    mem.write_u32(USER_BASE + 4, 9);
    let mut r = regs(0x10, USER_BASE, 0, 0);
    assert!(handle_syscall(&mut k, &mut mem, &frame, &mut r));
    let com1 = r.eax;
    mem.write_bytes(USER_BASE + 0x180, b"C");
    let mut r = regs(0x13, com1, USER_BASE + 0x180, 1);
    assert!(handle_syscall(&mut k, &mut mem, &frame, &mut r));
    assert_eq!(r.eax, 1);
    let mut r = regs(0x00, 0x10, 0, 0);
    assert!(handle_syscall(&mut k, &mut mem, &frame, &mut r));
    // The exit switched back to the parent, which reaps the child.
    assert_eq!(k.processes.current.as_u32(), 0);
    let mut r = regs(0x09, child, USER_BASE + 0x40, 0);
    assert!(handle_syscall(&mut k, &mut mem, &frame, &mut r));
    assert_eq!(r.eax, child);
    assert_eq!(mem.read_u32(USER_BASE + 0x40), 0x10);
}

#[test]
fn sleep_syscall_wakes_after_the_ticks_pass() {
    let (mut k, mut mem, frame) = boot();
    let mut r = regs(0x05, 1000, 0, 0);
    assert!(handle_syscall(&mut k, &mut mem, &frame, &mut r));
    assert_eq!(r.eax, 0);
    assert_eq!(k.processes.processes[0].run_state, RunState::Sleeping(1000));
    for _ in 0..4 {
        update_timeouts(&mut k.processes, 250);
    }
    assert_eq!(k.processes.processes[0].run_state, RunState::Running);
}

#[test]
fn wait_pid_on_a_stranger_is_not_found() {
    let (mut k, mut mem, frame) = boot();
    let mut r = regs(0x09, 99, USER_BASE + 0x40, 0);
    assert!(handle_syscall(&mut k, &mut mem, &frame, &mut r));
    assert_eq!(r.eax, SystemError::NotFound.to_code());
}

#[test]
fn ioctl_identify_reports_the_device_number() {
    let (mut k, mut mem, frame) = boot();
    mem.write_bytes(USER_BASE + 0x100, b"DEV:\\TTY0");
    mem.write_u32(USER_BASE, USER_BASE + 0x100);
    mem.write_u32(USER_BASE + 4, 9);
    let mut r = regs(0x10, USER_BASE, 0, 0);
    handle_syscall(&mut k, &mut mem, &frame, &mut r);
    let fh = r.eax;
    // Command 0 identifies the device; TTY0 is device number 1.
    let mut r = regs(0x1e, fh, 0, 0);
    assert!(handle_syscall(&mut k, &mut mem, &frame, &mut r));
    assert_eq!(r.eax, 1);
    // An unknown ioctl command is unsupported.
    let mut r = regs(0x1e, fh, 0x9999, 0);
    assert!(handle_syscall(&mut k, &mut mem, &frame, &mut r));
    assert_eq!(r.eax, SystemError::UnsupportedCommand.to_code());
}

#[test]
fn fionread_stores_through_the_argument_pointer() {
    let (mut k, mut mem, frame) = boot();
    let mut r = regs(0x1f, USER_BASE, USER_BASE + 4, 0);
    handle_syscall(&mut k, &mut mem, &frame, &mut r);
    let rd = mem.read_u32(USER_BASE);
    let wr = mem.read_u32(USER_BASE + 4);
    mem.write_bytes(USER_BASE + 0x100, b"SEVEN!!");
    let mut r = regs(0x13, wr, USER_BASE + 0x100, 7);
    handle_syscall(&mut k, &mut mem, &frame, &mut r);
    // FIONREAD writes the readable byte count through the pointer in D.
    let mut r = regs(0x1e, rd, 0x541b, USER_BASE + 0x20);
    assert!(handle_syscall(&mut k, &mut mem, &frame, &mut r));
    assert_eq!(r.eax, 0);
    assert_eq!(mem.read_u32(USER_BASE + 0x20), 7);
}

#[test]
fn dup_syscall_binds_the_requested_handle() {
    let (mut k, mut mem, frame) = boot();
    mem.write_bytes(USER_BASE + 0x100, b"DEV:\\COM1");
    mem.write_u32(USER_BASE, USER_BASE + 0x100);
    mem.write_u32(USER_BASE + 4, 9);
    let mut r = regs(0x10, USER_BASE, 0, 0);
    handle_syscall(&mut k, &mut mem, &frame, &mut r);
    let original = r.eax;
    let mut r = regs(0x1d, original, 5, 0);
    assert!(handle_syscall(&mut k, &mut mem, &frame, &mut r));
    assert_eq!(r.eax, 5);
}
