//! Core of a small cooperative-multitasking kernel for 32-bit x86:
//! physical and virtual memory management, process model and scheduler,
//! virtual file system with per-process handles, device files, pipes,
//! and the system-call dispatcher.

mod cursor;
mod devfs;
mod devices;
mod dispatch;
mod error;
mod fat12;
mod frames;
mod handles;
mod initfs;
mod paging;
mod pipes;
mod process;
mod regions;
mod sched;
mod usermem;
mod vfs;

pub use cursor::{spec_seek_position, SeekMethod};
pub use devfs::{lemma_dup_routes_identically, DevFileSystem};
pub use devices::{
    pad_device_name, spec_pad_name, standard_devices, vecs_equal, vecs_equal_slice, Device,
    DeviceDriver, DeviceRegistry, DriverKind, SinkDevice, ZeroDevice,
};
pub use dispatch::{
    boot_kernel, check_user_range, file_close, file_dup, file_ioctl, file_read, file_write,
    get_open_file, handle_syscall, lemma_covered_range_in_window, open_path, pipe_create,
    spec_file_dup_result, spec_file_ioctl_result, spec_file_read_result, spec_file_write_result,
    spec_fs_aliases, spec_known_method, spec_open_path_result, spec_pipe_create_result,
    spec_reserved_method, spec_user_range_ok, spec_word_writable, user_window_covers, BootStruct,
    Kernel, SavedRegisters, StackFrame,
};
pub use error::SystemError;
pub use fat12::{
    name_character_matches, spec_name_character_matches, Cluster, ClusterChain, Directory,
    DirectoryEntry, DirectoryEntryIterator, FileDate, FileReference, FileTime, FileType,
};
pub use frames::{
    count_free, free_frame_set, lemma_count_free_is_cardinality,
    lemma_count_free_prefix_allocated, spec_release, Frame,
    FrameAllocator, FRAME_SIZE,
};
pub use handles::{
    count_open, first_vacant, lemma_close_vacates, lemma_open_then_close_balances,
    spec_close_handle, spec_open_handle, DeviceHandlePair, FileHandle, FileHandleMap,
    HandleAllocator, LocalHandle,
};
pub use initfs::{InitFile, InitFileSystem, InitHandle};
pub use paging::{
    create_initial_pagedir, fork_page_directory, init_paging, kernel_window_shared,
    lemma_kernel_window_shared_sym, lemma_kernel_window_shared_trans,
    lemma_user_reachable_in_regions, map_kernel, map_user_page, spec_window_entry,
    KernelDataBounds, KernelWindowTable, PageDirectory, PageEntry, PageTable, TemporaryPage,
    UserTable, KERNEL_STACK_SLOT, KERNEL_WINDOW_BASE, KERNEL_WINDOW_FIRST_SLOT,
    PAGE_TABLE_ENTRIES, SELF_MAP_SLOT, STACK_START, TEMPORARY_PAGE_ADDRESS,
};
pub use pipes::{
    lemma_pipe_round_trip, spec_pipe_read, spec_pipe_rest, spec_pipe_write, Pipe, PipeCollection,
    PipeFileSystem, PIPE_CAPACITY,
};
pub use process::{
    apply_ticks, lemma_running_stays_running, lemma_sleep_accounting, spec_tick, sum_ticks,
    ProcessID, ProcessState, RunState,
};
pub use regions::{
    addr_covered, range_covered, ExpansionDirection, MemoryRegions, MemoryRegionType, Permissions,
    VirtualMemoryRegion,
};
pub use sched::{
    contains_pid, exit_current, find_next_running_process, fork, get_current_id,
    get_current_process, get_process, initialize, is_child_of, kfork, pids_sorted, runnable_other,
    sleep_current, spec_fork_result, spec_wait_pid_result, switch_to, update_timeouts,
    usermode_enter, wait_pid, yield_coop, ProcessMap, WaitPidOutcome,
};
pub use usermem::UserMemory;
pub use vfs::{
    init_system_drives, spec_strip_backslash, spec_to_upper, split_drive, to_upper, DirEntryInfo,
    Drive, DriveMap, FileSystem, FileSystemCategory, FileSystemKind, IoctlResult, FIONREAD,
};
