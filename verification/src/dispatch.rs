//! System-call services and the dispatcher.
//!
//! User mode traps into the kernel with the method in register A and the
//! arguments in B, C and D. The dispatcher validates every user pointer
//! against the current process's regions, routes the call to the service it
//! names, and leaves the result — a success value or a negative error code —
//! in register A. Blocking calls hand control back to the scheduler and are
//! retried after a yield.

use vstd::prelude::*;

use crate::error::SystemError;
use crate::frames::FrameAllocator;
use crate::handles::{
    count_open, first_vacant, spec_open_handle, DeviceHandlePair, FileHandle,
    LocalHandle,
};
use crate::process::{ProcessState, RunState};
use crate::sched::{
    exit_current, fork, lemma_point_update_keeps_wf, sleep_current, wait_pid, yield_coop,
    ProcessMap, WaitPidOutcome,
};
use crate::usermem::UserMemory;
use crate::regions::{range_covered, VirtualMemoryRegion};
use crate::vfs::{
    spec_colon_split, spec_strip_backslash, spec_to_upper, Drive, DriveMap, FileSystemKind,
    IoctlResult,
};

verus! {

/// The kernel's whole state: physical memory, the task map, and the mount
/// table.
pub struct Kernel {
    pub allocator: FrameAllocator,
    pub processes: ProcessMap,
    pub drives: DriveMap,
    pub kernel_tables: Vec<crate::paging::KernelWindowTable>,
}

impl Kernel {
    pub open spec fn wf(self) -> bool {
        &&& self.allocator.wf()
        &&& self.processes.wf()
        &&& self.drives.wf()
    }

    /// The process currently running.
    pub open spec fn spec_current_process(self) -> ProcessState {
        self.processes@[self.processes.spec_index_of(self.processes.current.value)]
    }

    /// What a file handle of the current process resolves to.
    pub open spec fn spec_lookup_handle(self, handle: int) -> Option<DeviceHandlePair> {
        self.spec_current_process().open_files.spec_lookup(handle)
    }
}

/// What the boot loader hands the kernel: where the boot archive sits in
/// memory.
#[derive(Clone, Copy, Debug, PartialEq, Eq, Structural)]
pub struct BootStruct {
    pub initfs_start: usize,
    pub initfs_size: usize,
}

/// Bring the kernel up: cover physical memory, build the first page
/// directory, install the idle task, register the built-in devices, and
/// mount the system drives over the boot archive. Fails only when physical
/// memory is too small for the first page directory.
pub fn boot_kernel(
    ram_end: u32,
    reserved_below: u32,
    heap_start: u32,
    bounds: &crate::paging::KernelDataBounds,
    initfs: crate::initfs::InitFileSystem,
) -> (r: Result<Kernel, SystemError>)
    requires
        reserved_below <= ram_end,
        ram_end % 0x1000 == 0,
        0xc000_0000 <= heap_start,
        heap_start + 0x10_0000 <= 0xffbf_e000,
        bounds.ro_start % 0x1000 == 0,
        bounds.rw_end % 0x1000 == 0,
        0x1000 <= bounds.rw_end <= 0x3f80_0000,
        bounds.ro_start < bounds.rw_end,
        initfs.wf(),
    ensures
        match r {
            Ok(k) => {
                &&& k.wf()
                &&& k.processes@.len() == 1
                &&& k.processes@[0].pid.value == 0
                &&& k.processes.current.value == 0
                &&& k.drives@.len() == 3
            },
            Err(e) => {
                // Booting fails only when physical memory cannot hold the
                // first page directory and the kernel-window tables beyond
                // the reserved frames.
                &&& e == SystemError::OutOfResources
                &&& (ram_end / 0x1000) < (reserved_below + 0xfff) / 0x1000 + ((bounds.rw_end - 1)
                    / 0x40_0000 + 1) + 2
            },
        },
{
    let mut allocator = FrameAllocator::new();
    allocator.init(ram_end, reserved_below);
    proof {
        crate::frames::lemma_count_free_prefix_allocated(
            allocator@,
            allocator.spec_reserved(),
        );
    }
    let mut directory = match crate::paging::create_initial_pagedir(&mut allocator) {
        Ok(d) => d,
        Err(e) => {
            return Err(e);
        },
    };
    let kernel_tables = match crate::paging::map_kernel(&mut allocator, &mut directory, bounds) {
        Ok(t) => t,
        Err(e) => {
            return Err(e);
        },
    };
    let mut processes = ProcessMap::new();
    crate::sched::initialize(&mut processes, heap_start, directory);
    let registry = crate::devices::standard_devices();
    let devfs = crate::devfs::DevFileSystem::new(registry);
    let pipefs = crate::pipes::PipeFileSystem::new(crate::pipes::PipeCollection::new());
    let drives = crate::vfs::init_system_drives(initfs, devfs, pipefs);
    Ok(Kernel { allocator, processes, drives, kernel_tables })
}

/// Give out a mutable borrow of one process of the task map.
fn proc_mut(v: &mut Vec<ProcessState>, i: usize) -> (p: &mut ProcessState)
    requires
        i < old(v)@.len(),
    ensures
        *p == old(v)@[i as int],
        final(v)@ == old(v)@.update(i as int, *final(p)),
{
    &mut v[i]
}

/// Give out a mutable borrow of one mounted drive.
fn drive_mut(v: &mut Vec<Drive>, i: usize) -> (d: &mut Drive)
    requires
        i < old(v)@.len(),
    ensures
        *d == old(v)@[i as int],
        final(v)@ == old(v)@.update(i as int, *final(d)),
{
    &mut v[i]
}

/// The index of the current process in the task map.
fn current_index(k: &Kernel) -> (i: usize)
    requires
        k.wf(),
    ensures
        i < k.processes@.len(),
        i as int == k.processes.spec_index_of(k.processes.current.value),
        k.processes@[i as int].pid == k.processes.current,
{
    match k.processes.index_of(k.processes.current.as_u32()) {
        Some(i) => i,
        None => {
            // The current id is always live in a well-formed task map.
            proof {
                assert(false);
            }
            0
        },
    }
}

/// Resolve a file handle of the current process.
pub fn get_open_file(k: &Kernel, handle: u32) -> (r: Option<DeviceHandlePair>)
    requires
        k.wf(),
    ensures
        r == k.spec_lookup_handle(handle as int),
{
    let i = current_index(k);
    k.processes.processes[i].get_open_file_info(FileHandle::new(handle))
}

/// A user range is admissible: every byte lies in a region of the current
/// process (writable for a write), and the whole range stays below the
/// kernel window. What `check_user_range` computes.
pub open spec fn spec_user_range_ok(k: Kernel, addr: int, len: int, write: bool) -> bool {
    &&& range_covered(k.spec_current_process().memory_regions@, addr, len, write)
    &&& addr + len <= 0xc000_0000
}

/// What opening a path returns: `NotFound` without a well-formed drive
/// prefix, a mounted drive, or a target behind it; `UnsupportedCommand` on
/// the pipe drive; `OutOfResources` when a handle supply is spent; else the
/// lowest vacant file handle of the current process.
pub open spec fn spec_open_path_result(k: Kernel, path: Seq<u8>) -> Result<
    FileHandle,
    SystemError,
> {
    let upper = spec_to_upper(path);
    match spec_colon_split(upper) {
        None => Err(SystemError::NotFound),
        Some(ci) => {
            let rest = spec_strip_backslash(upper.skip(ci + 1));
            match k.drives.spec_find_drive(upper.take(ci)) {
                None => Err(SystemError::NotFound),
                Some(nd) => {
                    let fv = first_vacant(k.spec_current_process().open_files@);
                    match k.drives@[nd].fs {
                        FileSystemKind::Pipe(_) => Err(SystemError::UnsupportedCommand),
                        FileSystemKind::Dev(fs) => match fs.registry.spec_find_name(
                            crate::devices::spec_pad_name(rest),
                        ) {
                            None => Err(SystemError::NotFound),
                            Some(_) => if fs.handle_allocator.next >= 0xffff_fffeu32 {
                                Err(SystemError::OutOfResources)
                            } else if fv >= 0xffff_fffe {
                                Err(SystemError::OutOfResources)
                            } else {
                                Ok(FileHandle { handle: fv as u32 })
                            },
                        },
                        FileSystemKind::Init(fs) => match fs.spec_find_file(rest) {
                            None => Err(SystemError::NotFound),
                            Some(_) => if fs.handles@.len() >= 0xffff_fffe {
                                Err(SystemError::OutOfResources)
                            } else if fv >= 0xffff_fffe {
                                Err(SystemError::OutOfResources)
                            } else {
                                Ok(FileHandle { handle: fv as u32 })
                            },
                        },
                    }
                },
            }
        },
    }
}

/// Open a path: resolve the drive by its case-folded name, let its
/// filesystem open the rest of the path, and bind the drive number and the
/// filesystem's local handle to the lowest vacant file handle of the
/// current process.
#[verifier::rlimit(60)]
#[verifier::spinoff_prover]
pub fn open_path(k: &mut Kernel, path: &[u8]) -> (r: Result<FileHandle, SystemError>)
    requires
        old(k).wf(),
    ensures
        final(k).wf(),
        final(k).allocator == old(k).allocator,
        final(k).processes.current == old(k).processes.current,
        final(k).processes.next_pid == old(k).processes.next_pid,
        final(k).processes@.len() == old(k).processes@.len(),
        final(k).drives@.len() == old(k).drives@.len(),
        forall|i: int|
            0 <= i < old(k).processes@.len() && i != old(k).processes.spec_index_of(
                old(k).processes.current.value,
            ) ==> final(k).processes@[i] == old(k).processes@[i],
        match r {
            Ok(fh) => spec_open_path_result(*old(k), path@) == Ok::<FileHandle, SystemError>(fh),
            Err(e) => spec_open_path_result(*old(k), path@) == Err::<FileHandle, SystemError>(e),
        },
        // Success is owed whenever the path names a mounted drive whose
        // filesystem holds the target, and no handle supply is spent.
        ({
            let upper = spec_to_upper(path@);
            let ci = spec_colon_split(upper)->Some_0;
            let rest = upper.skip(ci + 1);
            let nd = old(k).drives.spec_find_drive(upper.take(ci))->Some_0;
            &&& spec_colon_split(upper) is Some
            &&& old(k).drives.spec_find_drive(upper.take(ci)) is Some
            &&& old(k).spec_current_process().open_files@.len() < 0xffff_fffe
            &&& match old(k).drives@[nd].fs {
                FileSystemKind::Dev(fs) => fs.registry.spec_find_name(
                    crate::devices::spec_pad_name(crate::vfs::spec_strip_backslash(rest)),
                ) is Some && fs.handle_allocator.next < 0xffff_fffeu32,
                FileSystemKind::Init(fs) => fs.spec_find_file(
                    crate::vfs::spec_strip_backslash(rest),
                ) is Some && fs.handles@.len() < 0xffff_fffe,
                FileSystemKind::Pipe(_) => false,
            }
        }) ==> r is Ok,
        match r {
            Ok(fh) => {
                let upper = spec_to_upper(path@);
                let ci = spec_colon_split(upper)->Some_0;
                let nd = old(k).drives.spec_find_drive(upper.take(ci))->Some_0;
                let files = old(k).spec_current_process().open_files@;
                &&& spec_colon_split(upper) is Some
                &&& old(k).drives.spec_find_drive(upper.take(ci)) is Some
                &&& fh.handle == first_vacant(files)
                &&& exists|local: LocalHandle|
                    {
                        &&& final(k).spec_current_process().open_files@ == #[trigger] spec_open_handle(
                            files,
                            DeviceHandlePair { drive: nd as usize, handle: local },
                        )
                        &&& final(k).spec_lookup_handle(fh.handle as int) == Some(
                            DeviceHandlePair { drive: nd as usize, handle: local },
                        )
                    }
                &&& count_open(final(k).spec_current_process().open_files@) == count_open(files)
                    + 1
                &&& forall|j: int|
                    0 <= j < old(k).drives@.len() && j != nd ==> final(k).drives@[j] == old(
                        k,
                    ).drives@[j]
            },
            Err(e) => {
                &&& final(k).spec_current_process().open_files@ == old(
                    k,
                ).spec_current_process().open_files@
                &&& (e == SystemError::NotFound || e == SystemError::OutOfResources || e
                    == SystemError::UnsupportedCommand)
            },
        },
{
    let upper = crate::vfs::to_upper(path);
    let parts = match crate::vfs::split_drive(upper.as_slice()) {
        Some(p) => p,
        None => {
            return Err(SystemError::NotFound);
        },
    };
    let (drive_name, rest) = parts;
    let n = match k.drives.get_drive_number_by_name(drive_name.as_slice()) {
        Some(n) => n,
        None => {
            return Err(SystemError::NotFound);
        },
    };
    let ghost drives0 = k.drives@;
    let drive = drive_mut(&mut k.drives.drives, n);
    let local = match &mut drive.fs {
        FileSystemKind::Dev(fs) => fs.open(rest.as_slice()),
        FileSystemKind::Init(fs) => fs.open(rest.as_slice()),
        FileSystemKind::Pipe(_) => Err(SystemError::UnsupportedCommand),
    };
    proof {
        assert forall|a: int, b: int|
            0 <= a < b < k.drives@.len() implies k.drives@[a].name@ != k.drives@[b].name@ by {
            assert(drives0[a].name@ != drives0[b].name@);
            assert(k.drives@[a].name@ == drives0[a].name@);
            assert(k.drives@[b].name@ == drives0[b].name@);
        }
    }
    let local = match local {
        Ok(l) => l,
        Err(e) => {
            proof {
                let upperg = spec_to_upper(path@);
                let cig = spec_colon_split(upperg)->Some_0;
                assert(old(k).drives.spec_find_drive(upperg.take(cig)) == Some(n as int));
                assert(rest@ == upperg.skip(cig + 1));
                assert(spec_open_path_result(*old(k), path@) == Err::<FileHandle, SystemError>(
                    e,
                ));
            }
            return Err(e);
        },
    };
    let cur = current_index(k);
    let ghost procs0 = k.processes@;
    let p = proc_mut(&mut k.processes.processes, cur);
    let result = p.open_file(n, local);
    proof {
        lemma_point_update_keeps_wf(procs0, k.processes@, cur as int);
        k.processes.lemma_spec_index_of(k.processes.current.value, cur as int);
    }
    match result {
        Ok(fh) => {
            proof {
                let upperg = spec_to_upper(path@);
                assert(spec_colon_split(upperg) is Some);
                let cig = spec_colon_split(upperg)->Some_0;
                assert(old(k).drives.spec_find_drive(upperg.take(cig)) is Some);
                let ndg = old(k).drives.spec_find_drive(upperg.take(cig))->Some_0;
                assert(ndg == n as int);
                let files0 = old(k).spec_current_process().open_files@;
                assert(files0 == procs0[cur as int].open_files@);
                let pair = DeviceHandlePair { drive: n as usize, handle: local };
                assert(fh.handle == first_vacant(files0));
                assert(k.spec_current_process() == k.processes@[cur as int]);
                assert(k.spec_current_process().open_files@ == spec_open_handle(files0, pair));
                assert(k.spec_lookup_handle(fh.handle as int) == Some(pair));
                assert(exists|l: LocalHandle|
                    k.spec_current_process().open_files@ == #[trigger] spec_open_handle(
                        files0,
                        DeviceHandlePair { drive: ndg as usize, handle: l },
                    ) && k.spec_lookup_handle(fh.handle as int) == Some(
                        DeviceHandlePair { drive: ndg as usize, handle: l },
                    ));
                assert(count_open(k.spec_current_process().open_files@) == count_open(files0)
                    + 1);
                assert(forall|j: int|
                    0 <= j < old(k).drives@.len() && j != ndg ==> k.drives@[j] == old(
                        k,
                    ).drives@[j]);
                assert(rest@ == upperg.skip(cig + 1));
                assert(spec_open_path_result(*old(k), path@) == Ok::<FileHandle, SystemError>(
                    fh,
                ));
            }
            Ok(fh)
        },
        Err(e) => {
            proof {
                let upperg = spec_to_upper(path@);
                let cig = spec_colon_split(upperg)->Some_0;
                assert(old(k).drives.spec_find_drive(upperg.take(cig)) == Some(n as int));
                assert(rest@ == upperg.skip(cig + 1));
                assert(old(k).spec_current_process().open_files@ == procs0[cur as int].open_files@);
                crate::handles::lemma_first_vacant_char(procs0[cur as int].open_files@);
                assert(spec_open_path_result(*old(k), path@) == Err::<FileHandle, SystemError>(
                    e,
                ));
            }
            Err(e)
        },
    }
}

/// What a read through a file handle of the current process returns: the
/// device driver's bytes, the archive bytes at the handle's cursor, or the
/// buffered prefix of a pipe; `BadHandle` when the handle resolves to
/// nothing, and `WouldBlock` on an empty pipe.
pub open spec fn spec_file_read_result(k: Kernel, handle: u32, len: nat) -> Result<
    Seq<u8>,
    SystemError,
> {
    match k.spec_lookup_handle(handle as int) {
        None => Err(SystemError::BadHandle),
        Some(pair) => if pair.drive >= k.drives@.len() {
            Err(SystemError::BadHandle)
        } else {
            match k.drives@[pair.drive as int].fs {
                FileSystemKind::Dev(fs) => match fs.spec_device_for_handle(
                    pair.handle.handle as int,
                ) {
                    Some(n) => Ok(fs.registry@[n as int].driver.spec_read(len)),
                    None => Err(SystemError::BadHandle),
                },
                FileSystemKind::Init(fs) => match fs.spec_handle(pair.handle.handle as int) {
                    Some(crate::initfs::InitHandle::File { file_index, position }) => {
                        let data = fs.files@[file_index as int].data@;
                        let n = if len <= data.len() - position {
                            len as int
                        } else {
                            data.len() - position
                        };
                        Ok(data.subrange(position as int, position + n))
                    },
                    _ => Err(SystemError::BadHandle),
                },
                FileSystemKind::Pipe(fs) => match fs.collection.spec_find_reader(
                    pair.handle.handle,
                ) {
                    Some(pk) => if fs.collection@[pk].buffer@.len() == 0 && len > 0 {
                        Err(SystemError::WouldBlock)
                    } else {
                        Ok(crate::pipes::spec_pipe_read(fs.collection@[pk].buffer@, len as int))
                    },
                    None => Err(SystemError::BadHandle),
                },
            }
        },
    }
}

/// Read through a file handle of the current process: resolve it to a drive
/// and a local handle, and let the drive's filesystem do the work. A handle
/// that is not open fails with `BadHandle`; reads never touch the task map
/// or the frame allocator.
pub fn file_read(k: &mut Kernel, handle: u32, len: usize) -> (r: Result<Vec<u8>, SystemError>)
    requires
        old(k).wf(),
    ensures
        final(k).wf(),
        final(k).allocator == old(k).allocator,
        final(k).processes == old(k).processes,
        final(k).drives@.len() == old(k).drives@.len(),
        old(k).spec_lookup_handle(handle as int) is None ==> r == Err::<Vec<u8>, SystemError>(
            SystemError::BadHandle,
        ),
        match r {
            Ok(v) => spec_file_read_result(*old(k), handle, len as nat) == Ok::<
                Seq<u8>,
                SystemError,
            >(v@),
            Err(e) => spec_file_read_result(*old(k), handle, len as nat) == Err::<
                Seq<u8>,
                SystemError,
            >(e),
        },
        match r {
            Ok(v) => {
                let pair = old(k).spec_lookup_handle(handle as int)->Some_0;
                &&& old(k).spec_lookup_handle(handle as int) is Some
                &&& pair.drive < old(k).drives@.len()
                &&& FileSystemKind::spec_read_ok(
                    old(k).drives@[pair.drive as int].fs,
                    final(k).drives@[pair.drive as int].fs,
                    pair.handle.handle,
                    len as nat,
                    v@,
                )
                &&& v@.len() <= len
                &&& forall|j: int|
                    0 <= j < old(k).drives@.len() && j != pair.drive ==> final(k).drives@[j]
                        == old(k).drives@[j]
            },
            Err(e) => {
                &&& final(k).drives@ == old(k).drives@
                &&& match old(k).spec_lookup_handle(handle as int) {
                    None => e == SystemError::BadHandle,
                    Some(pair) => {
                        if pair.drive < old(k).drives@.len() {
                            FileSystemKind::spec_read_err(
                                old(k).drives@[pair.drive as int].fs,
                                pair.handle.handle,
                                len as nat,
                                e,
                            )
                        } else {
                            e == SystemError::BadHandle
                        }
                    },
                }
            },
        },
{
    let pair = match get_open_file(k, handle) {
        Some(p) => p,
        None => {
            return Err(SystemError::BadHandle);
        },
    };
    if pair.drive >= k.drives.drives.len() {
        return Err(SystemError::BadHandle);
    }
    let ghost drives0 = k.drives@;
    let drive = drive_mut(&mut k.drives.drives, pair.drive);
    let r = drive.fs.fs_read(pair.handle, len);
    proof {
        assert forall|a: int, b: int|
            0 <= a < b < k.drives@.len() implies k.drives@[a].name@ != k.drives@[b].name@ by {
            assert(drives0[a].name@ != drives0[b].name@);
            assert(k.drives@[a].name@ == drives0[a].name@);
            assert(k.drives@[b].name@ == drives0[b].name@);
        }
        if r is Err {
            assert(k.drives@ =~= drives0);
        }
        if r is Ok {
            assert(r->Ok_0@.len() <= len);
        }
    }
    r
}

/// What a write through a file handle of the current process returns: a
/// device accepts the whole buffer, the archive refuses the write, and a
/// pipe takes the longest prefix that fits — blocking when full.
pub open spec fn spec_file_write_result(k: Kernel, handle: u32, data: Seq<u8>) -> Result<
    int,
    SystemError,
> {
    match k.spec_lookup_handle(handle as int) {
        None => Err(SystemError::BadHandle),
        Some(pair) => if pair.drive >= k.drives@.len() {
            Err(SystemError::BadHandle)
        } else {
            match k.drives@[pair.drive as int].fs {
                FileSystemKind::Dev(fs) => match fs.spec_device_for_handle(
                    pair.handle.handle as int,
                ) {
                    Some(_) => Ok(data.len() as int),
                    None => Err(SystemError::BadHandle),
                },
                FileSystemKind::Init(fs) => match fs.spec_handle(pair.handle.handle as int) {
                    _ => Err(SystemError::NoPermission),
                },
                FileSystemKind::Pipe(fs) => match fs.collection.spec_find_writer(
                    pair.handle.handle,
                ) {
                    Some(pk) => {
                        let room = 0x1000 - fs.collection@[pk].buffer@.len();
                        if room == 0 && data.len() > 0 {
                            Err(SystemError::WouldBlock)
                        } else if data.len() <= room {
                            Ok(data.len() as int)
                        } else {
                            Ok(room as int)
                        }
                    },
                    None => Err(SystemError::BadHandle),
                },
            }
        },
    }
}

/// Write through a file handle of the current process. A handle that is not
/// open fails with `BadHandle`.
pub fn file_write(k: &mut Kernel, handle: u32, buffer: &[u8]) -> (r: Result<usize, SystemError>)
    requires
        old(k).wf(),
    ensures
        final(k).wf(),
        final(k).allocator == old(k).allocator,
        final(k).processes == old(k).processes,
        final(k).drives@.len() == old(k).drives@.len(),
        old(k).spec_lookup_handle(handle as int) is None ==> r == Err::<usize, SystemError>(
            SystemError::BadHandle,
        ),
        match r {
            Ok(n) => spec_file_write_result(*old(k), handle, buffer@) == Ok::<int, SystemError>(
                n as int,
            ),
            Err(e) => spec_file_write_result(*old(k), handle, buffer@) == Err::<
                int,
                SystemError,
            >(e),
        },
        match r {
            Ok(n) => {
                let pair = old(k).spec_lookup_handle(handle as int)->Some_0;
                &&& old(k).spec_lookup_handle(handle as int) is Some
                &&& pair.drive < old(k).drives@.len()
                &&& FileSystemKind::spec_write_ok(
                    old(k).drives@[pair.drive as int].fs,
                    final(k).drives@[pair.drive as int].fs,
                    pair.handle.handle,
                    buffer@,
                    n as nat,
                )
                &&& n <= buffer@.len()
                &&& forall|j: int|
                    0 <= j < old(k).drives@.len() && j != pair.drive ==> final(k).drives@[j]
                        == old(k).drives@[j]
            },
            Err(e) => {
                &&& final(k).drives@ == old(k).drives@
                &&& match old(k).spec_lookup_handle(handle as int) {
                    None => e == SystemError::BadHandle,
                    Some(pair) => {
                        if pair.drive < old(k).drives@.len() {
                            FileSystemKind::spec_write_err(
                                old(k).drives@[pair.drive as int].fs,
                                pair.handle.handle,
                                buffer@,
                                e,
                            )
                        } else {
                            e == SystemError::BadHandle
                        }
                    },
                }
            },
        },
{
    let pair = match get_open_file(k, handle) {
        Some(p) => p,
        None => {
            return Err(SystemError::BadHandle);
        },
    };
    if pair.drive >= k.drives.drives.len() {
        return Err(SystemError::BadHandle);
    }
    let ghost drives0 = k.drives@;
    let drive = drive_mut(&mut k.drives.drives, pair.drive);
    let r = drive.fs.fs_write(pair.handle, buffer);
    proof {
        assert forall|a: int, b: int|
            0 <= a < b < k.drives@.len() implies k.drives@[a].name@ != k.drives@[b].name@ by {
            assert(drives0[a].name@ != drives0[b].name@);
            assert(k.drives@[a].name@ == drives0[a].name@);
            assert(k.drives@[b].name@ == drives0[b].name@);
        }
        if r is Err {
            assert(k.drives@ =~= drives0);
        }
    }
    r
}

/// Close a file handle of the current process: the per-process entry is
/// vacated, and the filesystem releases the local handle where it tracks
/// one. Afterwards the handle resolves to nothing, so any later read
/// through it fails with `BadHandle`.
pub fn file_close(k: &mut Kernel, handle: u32) -> (r: Result<(), SystemError>)
    requires
        old(k).wf(),
    ensures
        final(k).wf(),
        final(k).allocator == old(k).allocator,
        final(k).processes.current == old(k).processes.current,
        final(k).processes.next_pid == old(k).processes.next_pid,
        final(k).processes@.len() == old(k).processes@.len(),
        final(k).drives@.len() == old(k).drives@.len(),
        forall|i: int|
            0 <= i < old(k).processes@.len() && i != old(k).processes.spec_index_of(
                old(k).processes.current.value,
            ) ==> final(k).processes@[i] == old(k).processes@[i],
        match r {
            Ok(()) => {
                &&& old(k).spec_lookup_handle(handle as int) is Some
                &&& final(k).spec_current_process().open_files@ == crate::handles::spec_close_handle(
                    old(k).spec_current_process().open_files@,
                    handle as int,
                )
                &&& final(k).spec_lookup_handle(handle as int) is None
            },
            Err(e) => {
                &&& e == SystemError::BadHandle
                &&& old(k).spec_lookup_handle(handle as int) is None
                &&& *final(k) == *old(k)
            },
        },
{
    let pair = match get_open_file(k, handle) {
        Some(p) => p,
        None => {
            return Err(SystemError::BadHandle);
        },
    };
    let cur = current_index(k);
    let ghost procs0 = k.processes@;
    let p = proc_mut(&mut k.processes.processes, cur);
    p.close_file(FileHandle::new(handle));
    proof {
        lemma_point_update_keeps_wf(procs0, k.processes@, cur as int);
        k.processes.lemma_spec_index_of(k.processes.current.value, cur as int);
    }
    // Let the filesystem release the local handle, where it tracks one.
    if pair.drive < k.drives.drives.len() {
        let ghost drives0 = k.drives@;
        let drive = drive_mut(&mut k.drives.drives, pair.drive);
        let closed = drive.fs.fs_close(pair.handle);
        proof {
            assert forall|a: int, b: int|
                0 <= a < b < k.drives@.len() implies k.drives@[a].name@ != k.drives@[b].name@ by {
                assert(drives0[a].name@ != drives0[b].name@);
                assert(k.drives@[a].name@ == drives0[a].name@);
                assert(k.drives@[b].name@ == drives0[b].name@);
            }
        }
    }
    Ok(())
}

/// What duplicating a file handle returns: the explicit destination when
/// one is given, else the lowest vacant slot; `BadHandle` for a source that
/// resolves to nothing or an unusable destination, `UnsupportedCommand` for
/// pipe ends, and `OutOfResources` when a handle supply is spent.
pub open spec fn spec_file_dup_result(k: Kernel, src: u32, dst: u32) -> Result<
    FileHandle,
    SystemError,
> {
    match k.spec_lookup_handle(src as int) {
        None => Err(SystemError::BadHandle),
        Some(pair) => if pair.drive >= k.drives@.len() {
            Err(SystemError::BadHandle)
        } else if dst != 0xffff_ffffu32 && dst >= 0xffff_fffeu32 {
            Err(SystemError::BadHandle)
        } else {
            let fv = first_vacant(k.spec_current_process().open_files@);
            let bind = if dst == 0xffff_ffffu32 {
                if fv >= 0xffff_fffe {
                    Err(SystemError::OutOfResources)
                } else {
                    Ok(FileHandle { handle: fv as u32 })
                }
            } else {
                Ok(FileHandle { handle: dst })
            };
            match k.drives@[pair.drive as int].fs {
                FileSystemKind::Pipe(_) => Err(SystemError::UnsupportedCommand),
                FileSystemKind::Dev(fs) => match fs.spec_device_for_handle(
                    pair.handle.handle as int,
                ) {
                    None => Err(SystemError::BadHandle),
                    Some(_) => if fs.handle_allocator.next >= 0xffff_fffeu32 {
                        Err(SystemError::OutOfResources)
                    } else {
                        bind
                    },
                },
                FileSystemKind::Init(fs) => match fs.spec_handle(pair.handle.handle as int) {
                    None => Err(SystemError::BadHandle),
                    Some(_) => if fs.handles@.len() >= 0xffff_fffe {
                        Err(SystemError::OutOfResources)
                    } else {
                        bind
                    },
                },
            }
        },
    }
}

/// Duplicate a file handle of the current process. The filesystem mints a
/// second local handle to the same resource; the new file handle is bound
/// either to the lowest vacant slot, or, when an explicit destination is
/// given, to that slot after whatever it held is closed. Afterwards reads
/// and writes through the new handle reach exactly what the source handle
/// reaches.
#[verifier::rlimit(100)]
#[verifier::spinoff_prover]
pub fn file_dup(k: &mut Kernel, src: u32, dst: u32) -> (r: Result<FileHandle, SystemError>)
    requires
        old(k).wf(),
    ensures
        final(k).wf(),
        final(k).allocator == old(k).allocator,
        final(k).processes.current == old(k).processes.current,
        final(k).processes.next_pid == old(k).processes.next_pid,
        final(k).processes@.len() == old(k).processes@.len(),
        final(k).drives@.len() == old(k).drives@.len(),
        old(k).spec_lookup_handle(src as int) is None ==> r == Err::<FileHandle, SystemError>(
            SystemError::BadHandle,
        ),
        match r {
            Ok(fh) => spec_file_dup_result(*old(k), src, dst) == Ok::<FileHandle, SystemError>(
                fh,
            ),
            Err(e) => spec_file_dup_result(*old(k), src, dst) == Err::<FileHandle, SystemError>(
                e,
            ),
        },
        match r {
            Ok(fh) => {
                let pair = old(k).spec_lookup_handle(src as int)->Some_0;
                &&& old(k).spec_lookup_handle(src as int) is Some
                &&& pair.drive < old(k).drives@.len()
                &&& (dst == 0xffff_ffffu32 || fh.handle == dst)
                &&& exists|local: LocalHandle|
                    {
                        &&& final(k).spec_lookup_handle(fh.handle as int) == Some(
                            DeviceHandlePair { drive: pair.drive, handle: local },
                        )
                        &&& #[trigger] spec_fs_aliases(
                            old(k).drives@[pair.drive as int].fs,
                            final(k).drives@[pair.drive as int].fs,
                            pair.handle,
                            local,
                        )
                    }
            },
            Err(e) => {
                let pair = old(k).spec_lookup_handle(src as int)->Some_0;
                &&& (e == SystemError::BadHandle || e == SystemError::OutOfResources || e
                    == SystemError::UnsupportedCommand)
                &&& e == SystemError::BadHandle ==> (old(k).spec_lookup_handle(src as int)
                    is None || pair.drive >= old(k).drives@.len() || (dst != 0xffff_ffffu32 && dst
                    >= 0xffff_fffeu32) || match old(k).drives@[pair.drive as int].fs {
                    FileSystemKind::Dev(fs) => fs.spec_device_for_handle(
                        pair.handle.handle as int,
                    ) is None,
                    FileSystemKind::Init(fs) => fs.spec_handle(pair.handle.handle as int)
                        is None,
                    FileSystemKind::Pipe(_) => false,
                })
                &&& e == SystemError::UnsupportedCommand ==> old(k).spec_lookup_handle(
                    src as int,
                ) is Some && pair.drive < old(k).drives@.len() && old(k).drives@[
                    pair.drive as int
                ].fs is Pipe
            },
        },
        // Success is owed for an open source handle on a duplicable drive
        // with handle supply left, to a lawful destination.
        ({
            let pair = old(k).spec_lookup_handle(src as int)->Some_0;
            &&& old(k).spec_lookup_handle(src as int) is Some
            &&& pair.drive < old(k).drives@.len()
            &&& (dst == 0xffff_ffffu32 || dst < 0xffff_fffeu32)
            &&& old(k).spec_current_process().open_files@.len() < 0xffff_fffe
            &&& match old(k).drives@[pair.drive as int].fs {
                FileSystemKind::Dev(fs) => fs.spec_device_for_handle(pair.handle.handle as int)
                    is Some && fs.handle_allocator.next < 0xffff_fffeu32,
                FileSystemKind::Init(fs) => fs.spec_handle(pair.handle.handle as int) is Some
                    && fs.handles@.len() < 0xffff_fffe,
                FileSystemKind::Pipe(_) => false,
            }
        }) ==> r is Ok,
{
    let pair = match get_open_file(k, src) {
        Some(p) => p,
        None => {
            return Err(SystemError::BadHandle);
        },
    };
    if pair.drive >= k.drives.drives.len() {
        return Err(SystemError::BadHandle);
    }
    if dst != 0xffff_ffff && dst >= 0xffff_fffe {
        return Err(SystemError::BadHandle);
    }
    let ghost drives0 = k.drives@;
    let drive = drive_mut(&mut k.drives.drives, pair.drive);
    let new_local = match drive.fs.fs_dup(pair.handle) {
        Ok(l) => l,
        Err(e) => {
            proof {
                assert forall|a: int, b: int|
                    0 <= a < b < k.drives@.len() implies k.drives@[a].name@
                    != k.drives@[b].name@ by {
                    assert(drives0[a].name@ != drives0[b].name@);
                }
            }
            return Err(e);
        },
    };
    proof {
        assert forall|a: int, b: int|
            0 <= a < b < k.drives@.len() implies k.drives@[a].name@ != k.drives@[b].name@ by {
            assert(drives0[a].name@ != drives0[b].name@);
            assert(k.drives@[a].name@ == drives0[a].name@);
            assert(k.drives@[b].name@ == drives0[b].name@);
        }
    }
    let cur = current_index(k);
    let ghost procs0 = k.processes@;
    let p = proc_mut(&mut k.processes.processes, cur);
    let result: Result<FileHandle, SystemError> = if dst == 0xffff_ffff {
        p.open_file(pair.drive, new_local)
    } else {
        // An explicit destination: close whatever it held, then bind it.
        p.close_file(FileHandle::new(dst));
        p.open_files.open_handle_at(FileHandle::new(dst), pair.drive, new_local);
        Ok(FileHandle::new(dst))
    };
    proof {
        lemma_point_update_keeps_wf(procs0, k.processes@, cur as int);
        k.processes.lemma_spec_index_of(k.processes.current.value, cur as int);
    }
    match result {
        Ok(fh) => {
            proof {
                assert(k.spec_current_process() == k.processes@[cur as int]);
                assert(k.spec_lookup_handle(fh.handle as int) == Some(
                    DeviceHandlePair { drive: pair.drive, handle: new_local },
                ));
                assert(spec_fs_aliases(
                    drives0[pair.drive as int].fs,
                    k.drives@[pair.drive as int].fs,
                    pair.handle,
                    new_local,
                ));
                assert(exists|l: LocalHandle|
                    k.spec_lookup_handle(fh.handle as int) == Some(
                        DeviceHandlePair { drive: pair.drive, handle: l },
                    ) && #[trigger] spec_fs_aliases(
                        drives0[pair.drive as int].fs,
                        k.drives@[pair.drive as int].fs,
                        pair.handle,
                        l,
                    ));
                assert(old(k).spec_current_process().open_files@ == procs0[cur as int].open_files@);
                assert(spec_file_dup_result(*old(k), src, dst) == Ok::<FileHandle, SystemError>(
                    fh,
                ));
            }
            Ok(fh)
        },
        Err(e) => {
            proof {
                assert(old(k).spec_current_process().open_files@ == procs0[cur as int].open_files@);
                crate::handles::lemma_first_vacant_char(procs0[cur as int].open_files@);
                assert(spec_file_dup_result(*old(k), src, dst) == Err::<FileHandle, SystemError>(
                    e,
                ));
            }
            Err(e)
        },
    }
}

/// After a duplication, the new local handle names the same resource in the
/// filesystem as the old one did: the same device, or the same archive file
/// and cursor. Reads and writes via either reach the same place.
pub open spec fn spec_fs_aliases(
    pre: FileSystemKind,
    post: FileSystemKind,
    old_local: LocalHandle,
    new_local: LocalHandle,
) -> bool {
    match pre {
        FileSystemKind::Dev(fs) => post matches FileSystemKind::Dev(pfs) && pfs.registry
            == fs.registry && pfs.spec_device_for_handle(new_local.handle as int)
            == fs.spec_device_for_handle(old_local.handle as int)
            && pfs.spec_device_for_handle(old_local.handle as int) == fs.spec_device_for_handle(
            old_local.handle as int,
        ) && fs.spec_device_for_handle(old_local.handle as int) is Some,
        FileSystemKind::Init(fs) => post matches FileSystemKind::Init(pfs) && pfs.files
            == fs.files && pfs.spec_handle(new_local.handle as int) == fs.spec_handle(
            old_local.handle as int,
        ) && pfs.spec_handle(old_local.handle as int) == fs.spec_handle(old_local.handle as int)
            && fs.spec_handle(old_local.handle as int) is Some,
        FileSystemKind::Pipe(_) => false,
    }
}

/// Whether a four-byte user word at `arg` may be written: it lies in a
/// writable region of the current process, below the kernel window.
pub open spec fn spec_word_writable(k: Kernel, arg: u32) -> bool {
    &&& range_covered(k.spec_current_process().memory_regions@, arg as int, 4, true)
    &&& arg + 4 <= 0xc000_0000
}

/// What an ioctl through a file handle of the current process returns: the
/// filesystem's answer, with a stored value mediated through the pointer
/// argument (zero in register A), and `BadAddress` when that pointer fails
/// the region check.
pub open spec fn spec_file_ioctl_result(k: Kernel, handle: u32, command: u32, arg: u32) -> Result<
    u32,
    SystemError,
> {
    match k.spec_lookup_handle(handle as int) {
        None => Err(SystemError::BadHandle),
        Some(pair) => if pair.drive >= k.drives@.len() {
            Err(SystemError::BadHandle)
        } else {
            match FileSystemKind::spec_ioctl_outcome(
                k.drives@[pair.drive as int].fs,
                pair.handle.handle,
                command,
            ) {
                Ok(IoctlResult::Value(v)) => Ok(v),
                Ok(IoctlResult::StoreToArg(v)) => if spec_word_writable(k, arg) {
                    Ok(0)
                } else {
                    Err(SystemError::BadAddress)
                },
                Err(e) => Err(e),
            }
        },
    }
}

/// An ioctl through a file handle of the current process. A value the
/// filesystem asks to store through the caller's pointer argument is
/// written to user memory after the pointer passes the region check, and
/// register A receives zero; a plain value goes to register A directly.
pub fn file_ioctl(k: &mut Kernel, mem: &mut UserMemory, handle: u32, command: u32, arg: u32) -> (r:
    Result<u32, SystemError>)
    requires
        old(k).wf(),
        old(mem).wf(),
        user_window_covers(*old(mem), old(k).spec_current_process().memory_regions@),
    ensures
        final(k).wf(),
        final(mem).wf(),
        final(mem).base == old(mem).base,
        final(mem).bytes@.len() == old(mem).bytes@.len(),
        final(k).allocator == old(k).allocator,
        final(k).processes == old(k).processes,
        final(k).drives@ == old(k).drives@,
        r == spec_file_ioctl_result(*old(k), handle, command, arg),
        // User memory changes only when a stored answer was owed: then the
        // word at `arg` holds it and every other byte is untouched.
        ({
            let pair = old(k).spec_lookup_handle(handle as int)->Some_0;
            if r is Ok && old(k).spec_lookup_handle(handle as int) is Some && pair.drive < old(
                k,
            ).drives@.len() {
                match FileSystemKind::spec_ioctl_outcome(
                    old(k).drives@[pair.drive as int].fs,
                    pair.handle.handle,
                    command,
                ) {
                    Ok(IoctlResult::StoreToArg(v)) => {
                        &&& UserMemory::spec_u32_le(final(mem).spec_read(arg as int, 4)) == v
                        &&& forall|j: int|
                            0 <= j < old(mem).bytes@.len() && !(arg - old(mem).base <= j < arg
                                - old(mem).base + 4) ==> final(mem).bytes@[j] == old(
                                mem,
                            ).bytes@[j]
                    },
                    _ => *final(mem) == *old(mem),
                }
            } else {
                *final(mem) == *old(mem)
            }
        }),
{
    let pair = match get_open_file(k, handle) {
        Some(p) => p,
        None => {
            return Err(SystemError::BadHandle);
        },
    };
    if pair.drive >= k.drives.drives.len() {
        return Err(SystemError::BadHandle);
    }
    let ghost drives0 = k.drives@;
    let drive = drive_mut(&mut k.drives.drives, pair.drive);
    let outcome = drive.fs.fs_ioctl(pair.handle, command, arg);
    proof {
        assert(k.drives@ =~= drives0);
    }
    match outcome {
        Ok(IoctlResult::Value(v)) => Ok(v),
        Ok(IoctlResult::StoreToArg(v)) => {
            if !check_user_range(k, arg, 4, true) {
                return Err(SystemError::BadAddress);
            }
            proof {
                lemma_covered_range_in_window(
                    *mem,
                    k.spec_current_process().memory_regions@,
                    arg as int,
                    4,
                    true,
                );
            }
            mem.write_u32(arg, v);
            Ok(0)
        },
        Err(e) => Err(e),
    }
}

/// What creating a pipe returns: `NotFound` unless the pipe filesystem is
/// mounted as the drive named `PIPE`, `OutOfResources` when a handle supply
/// is spent, else the two fresh file handles, read end first.
pub open spec fn spec_pipe_create_result(k: Kernel) -> Result<
    (FileHandle, FileHandle),
    SystemError,
> {
    let pname = seq![0x50u8, 0x49u8, 0x50u8, 0x45u8];
    match k.drives.spec_find_drive(pname) {
        None => Err(SystemError::NotFound),
        Some(pn) => match k.drives@[pn].fs {
            FileSystemKind::Pipe(fs) => if fs.collection.next_handle >= 0xffff_fffeu32 {
                Err(SystemError::OutOfResources)
            } else {
                let files = k.spec_current_process().open_files@;
                let fv1 = first_vacant(files);
                if fv1 >= 0xffff_fffe {
                    Err(SystemError::OutOfResources)
                } else {
                    let rd = LocalHandle { handle: fs.collection.next_handle };
                    let files2 = spec_open_handle(
                        files,
                        DeviceHandlePair { drive: pn as usize, handle: rd },
                    );
                    let fv2 = first_vacant(files2);
                    if fv2 >= 0xffff_fffe {
                        Err(SystemError::OutOfResources)
                    } else {
                        Ok((FileHandle { handle: fv1 as u32 }, FileHandle { handle: fv2 as u32 }))
                    }
                }
            },
            _ => Err(SystemError::NotFound),
        },
    }
}

/// Create a pipe on the `PIPE` drive and bind both of its ends to fresh
/// file handles of the current process: the read end first, then the write
/// end.
#[verifier::rlimit(100)]
#[verifier::spinoff_prover]
pub fn pipe_create(k: &mut Kernel) -> (r: Result<(FileHandle, FileHandle), SystemError>)
    requires
        old(k).wf(),
    ensures
        final(k).wf(),
        final(k).allocator == old(k).allocator,
        final(k).processes.current == old(k).processes.current,
        final(k).processes.next_pid == old(k).processes.next_pid,
        final(k).processes@.len() == old(k).processes@.len(),
        final(k).drives@.len() == old(k).drives@.len(),
        match r {
            Ok(ends) => spec_pipe_create_result(*old(k)) == Ok::<
                (FileHandle, FileHandle),
                SystemError,
            >(ends),
            Err(e) => spec_pipe_create_result(*old(k)) == Err::<
                (FileHandle, FileHandle),
                SystemError,
            >(e),
        },
        match r {
            Ok((fr, fw)) => {
                let pname = seq![0x50u8, 0x49u8, 0x50u8, 0x45u8];
                let pn = old(k).drives.spec_find_drive(pname)->Some_0;
                let coll = old(k).drives@[pn].fs->Pipe_0.collection;
                let rd = LocalHandle { handle: coll.next_handle };
                let wr = LocalHandle { handle: (coll.next_handle + 1) as u32 };
                &&& fr.handle != fw.handle
                &&& old(k).drives.spec_find_drive(pname) is Some
                &&& old(k).drives@[pn].fs is Pipe
                &&& final(k).spec_lookup_handle(fr.handle as int) == Some(
                    DeviceHandlePair { drive: pn as usize, handle: rd },
                )
                &&& final(k).spec_lookup_handle(fw.handle as int) == Some(
                    DeviceHandlePair { drive: pn as usize, handle: wr },
                )
                &&& final(k).drives@[pn].fs matches FileSystemKind::Pipe(pfs)
                    && pfs.collection@.len() == coll@.len() + 1
                    && pfs.collection@.last().read_handle == rd
                    && pfs.collection@.last().write_handle == wr
                    && pfs.collection@.last().buffer@.len() == 0
                    && (forall|j: int| 0 <= j < coll@.len() ==> pfs.collection@[j] == coll@[j])
            },
            Err(e) => {
                let pname = seq![0x50u8, 0x49u8, 0x50u8, 0x45u8];
                let pn = old(k).drives.spec_find_drive(pname)->Some_0;
                &&& (e == SystemError::NotFound || e == SystemError::OutOfResources)
                &&& e == SystemError::NotFound ==> (old(k).drives.spec_find_drive(pname) is None
                    || !(old(k).drives@[pn].fs is Pipe))
            },
        },
        // Success is owed while the pipe drive is mounted and handles are
        // left to mint.
        ({
            let pname = seq![0x50u8, 0x49u8, 0x50u8, 0x45u8];
            let pn = old(k).drives.spec_find_drive(pname)->Some_0;
            &&& old(k).drives.spec_find_drive(pname) is Some
            &&& old(k).drives@[pn].fs is Pipe
            &&& old(k).drives@[pn].fs->Pipe_0.collection.next_handle < 0xffff_fffeu32
            &&& old(k).spec_current_process().open_files@.len() < 0xffff_fffd
        }) ==> r is Ok,
{
    // The pipe filesystem is mounted as the drive named "PIPE".
    let mut pipe_name: Vec<u8> = Vec::new();
    pipe_name.push(0x50);
    pipe_name.push(0x49);
    pipe_name.push(0x50);
    pipe_name.push(0x45);
    proof {
        assert(pipe_name@ =~= seq![0x50u8, 0x49u8, 0x50u8, 0x45u8]);
    }
    let n = match k.drives.get_drive_number_by_name(pipe_name.as_slice()) {
        Some(n) => n,
        None => {
            return Err(SystemError::NotFound);
        },
    };
    let ghost drives0 = k.drives@;
    let drive = drive_mut(&mut k.drives.drives, n);
    let ends = match &mut drive.fs {
        FileSystemKind::Pipe(fs) => fs.collection.create(),
        _ => Err(SystemError::NotFound),
    };
    proof {
        assert forall|a: int, b: int|
            0 <= a < b < k.drives@.len() implies k.drives@[a].name@ != k.drives@[b].name@ by {
            assert(drives0[a].name@ != drives0[b].name@);
            assert(k.drives@[a].name@ == drives0[a].name@);
            assert(k.drives@[b].name@ == drives0[b].name@);
        }
    }
    let (rd, wr) = match ends {
        Ok(pair) => pair,
        Err(e) => {
            return Err(e);
        },
    };
    let cur = current_index(k);
    let ghost procs0 = k.processes@;
    let p = proc_mut(&mut k.processes.processes, cur);
    let fr = match p.open_file(n, rd) {
        Ok(fh) => fh,
        Err(e) => {
            proof {
                lemma_point_update_keeps_wf(procs0, k.processes@, cur as int);
                crate::handles::lemma_first_vacant_char(procs0[cur as int].open_files@);
            }
            return Err(e);
        },
    };
    let fw = match p.open_file(n, wr) {
        Ok(fh) => fh,
        Err(e) => {
            proof {
                lemma_point_update_keeps_wf(procs0, k.processes@, cur as int);
                let files0 = procs0[cur as int].open_files@;
                let files2 = spec_open_handle(files0, DeviceHandlePair { drive: n, handle: rd });
                crate::handles::lemma_first_vacant_char(files0);
                crate::handles::lemma_first_vacant_char(files2);
            }
            return Err(e);
        },
    };
    proof {
        lemma_point_update_keeps_wf(procs0, k.processes@, cur as int);
        k.processes.lemma_spec_index_of(k.processes.current.value, cur as int);
        let files0 = procs0[cur as int].open_files@;
        let files1 = spec_open_handle(files0, DeviceHandlePair { drive: n, handle: rd });
        crate::handles::lemma_first_vacant_char(files0);
        crate::handles::lemma_first_vacant_char(files1);
        assert(k.spec_current_process() == k.processes@[cur as int]);
        assert(files1[fr.handle as int] is Some);
        assert(fr.handle != fw.handle);
        assert(k.spec_lookup_handle(fr.handle as int) == Some(
            DeviceHandlePair { drive: n, handle: rd },
        ));
        assert(k.spec_lookup_handle(fw.handle as int) == Some(
            DeviceHandlePair { drive: n, handle: wr },
        ));
    }
    Ok((fr, fw))
}

/// The user window backs every region of user space: whatever the region
/// check admits below the kernel window can be read and written through it.
pub open spec fn user_window_covers(mem: UserMemory, regions: Seq<VirtualMemoryRegion>) -> bool {
    forall|i: int|
        0 <= i < regions.len() ==> ((#[trigger] regions[i]).start < 0xc000_0000 ==> {
            let end = if regions[i].spec_end() > 0xc000_0000 {
                0xc000_0000int
            } else {
                regions[i].spec_end()
            };
            mem.spec_contains_range(regions[i].start as int, end - regions[i].start)
        })
}

/// A user range that passed the region check lies inside the user window.
pub proof fn lemma_covered_range_in_window(
    mem: UserMemory,
    regions: Seq<VirtualMemoryRegion>,
    addr: int,
    len: int,
    write: bool,
)
    requires
        range_covered(regions, addr, len, write),
        len > 0,
        addr + len <= 0xc000_0000,
        user_window_covers(mem, regions),
    ensures
        mem.spec_contains_range(addr, len),
{
    assert(crate::regions::addr_covered(regions, addr, write));
    let ri = choose|i: int|
        0 <= i < regions.len() && (#[trigger] regions[i]).spec_contains(addr) && (write
            ==> regions[i].spec_writable());
    assert(mem.base <= regions[ri].start <= addr);
    let last = addr + len - 1;
    assert(crate::regions::addr_covered(regions, last, write));
    let rj = choose|i: int|
        0 <= i < regions.len() && (#[trigger] regions[i]).spec_contains(last) && (write
            ==> regions[i].spec_writable());
    assert(regions[rj].start <= last < 0xc000_0000);
    assert(addr + len <= mem.base + mem.bytes@.len());
}

/// Check a user pointer for the dispatcher: every byte must lie in a region
/// of the current process (writable for a write), and the whole range must
/// stay below the kernel window.
pub fn check_user_range(k: &Kernel, addr: u32, len: u32, write: bool) -> (r: bool)
    requires
        k.wf(),
    ensures
        r == (range_covered(
            k.spec_current_process().memory_regions@,
            addr as int,
            len as int,
            write,
        ) && addr + len <= 0xc000_0000),
{
    let i = current_index(k);
    let in_regions = k.processes.processes[i].memory_regions.check_user_range(addr, len, write);
    in_regions && (addr as u64 + len as u64 <= 0xc000_0000u64)
}

/// The registers pushed by the interrupt stub, as the dispatcher sees them.
/// Register A carries the method in and the result out; B, C and D are the
/// arguments.
#[derive(Clone, Copy, Debug, PartialEq, Eq, Structural)]
pub struct SavedRegisters {
    pub edi: u32,
    pub esi: u32,
    pub ebp: u32,
    pub ebx: u32,
    pub edx: u32,
    pub ecx: u32,
    pub eax: u32,
}

/// The frame the processor pushed on the way into the trap.
#[derive(Clone, Copy, Debug, PartialEq, Eq, Structural)]
pub struct StackFrame {
    pub eip: u32,
    pub cs: u32,
    pub eflags: u32,
}

/// Whether a method code appears in the dispatcher's table at all; anything
/// else answers `Unknown`.
pub open spec fn spec_known_method(m: u32) -> bool {
    ||| m <= 0x09
    ||| 0x10 <= m <= 0x1f
    ||| 0x30 <= m <= 0x33
    ||| m == 0xffff
}

/// Methods that stand in the table but have no defined behavior yet; they
/// answer `UnsupportedCommand` until specified.
pub open spec fn spec_reserved_method(m: u32) -> bool {
    ||| m == 0x02
    ||| m == 0x04
    ||| m == 0x07
    ||| m == 0x08
    ||| 0x14 <= m <= 0x1c
    ||| 0x30 <= m <= 0x33
}

/// Handle one software interrupt: dispatch on the method in register A,
/// check every user pointer against the current process's regions, run the
/// service, and put the result code back in register A. Returns whether the
/// call completed: a call that would block reports `false` with the
/// registers untouched, and the trap handler yields and retries it.
#[verifier::rlimit(100)]
pub fn handle_syscall(
    k: &mut Kernel,
    mem: &mut UserMemory,
    frame: &StackFrame,
    regs: &mut SavedRegisters,
) -> (done: bool)
    requires
        old(k).wf(),
        old(mem).wf(),
        user_window_covers(*old(mem), old(k).spec_current_process().memory_regions@),
    ensures
        final(k).wf(),
        final(mem).wf(),
        final(mem).base == old(mem).base,
        final(mem).bytes@.len() == old(mem).bytes@.len(),
        final(regs).edi == old(regs).edi,
        final(regs).esi == old(regs).esi,
        final(regs).ebp == old(regs).ebp,
        final(regs).ebx == old(regs).ebx,
        final(regs).edx == old(regs).edx,
        final(regs).ecx == old(regs).ecx,
        !spec_known_method(old(regs).eax) ==> done && final(regs).eax
            == SystemError::Unknown.spec_to_code() && *final(k) == *old(k) && *final(mem)
            == *old(mem),
        spec_reserved_method(old(regs).eax) ==> done && final(regs).eax
            == SystemError::UnsupportedCommand.spec_to_code() && *final(k) == *old(k)
            && *final(mem) == *old(mem),
        old(regs).eax == 0xffff ==> done && final(regs).eax == 0 && *final(k) == *old(k)
            && *final(mem) == *old(mem),
        old(regs).eax == 0x03 ==> done && final(regs).eax == old(k).processes.current.value
            && *final(k) == *old(k) && *final(mem) == *old(mem),
        old(regs).eax == 0x06 ==> done && final(regs).eax == 0 && final(k).processes@
            == old(k).processes@ && *final(mem) == *old(mem),
        old(regs).eax == 0x05 ==> done && final(regs).eax == 0 && *final(mem) == *old(mem)
            && final(k).processes@ == old(k).processes@.update(
            old(k).processes.spec_index_of(old(k).processes.current.value),
            ProcessState {
                run_state: RunState::Sleeping(old(regs).ebx as usize),
                ..old(k).spec_current_process()
            },
        ),
        old(regs).eax == 0x00 ==> done && *final(mem) == *old(mem) && final(k).processes@ == old(
            k,
        ).processes@.update(
            old(k).processes.spec_index_of(old(k).processes.current.value),
            ProcessState {
                run_state: RunState::Exited(old(regs).ebx),
                ..old(k).spec_current_process()
            },
        ),
        // fork: the child's id in register A, or the error code; the child
        // joins the task map as a child of the caller.
        old(regs).eax == 0x01 ==> done && *final(mem) == *old(mem) && (if old(
            k,
        ).processes.next_pid >= 0xffff_fffeu32 {
            final(regs).eax == SystemError::OutOfResources.spec_to_code() && *final(k) == *old(k)
        } else {
            match crate::sched::spec_fork_result(old(k).processes, old(k).allocator) {
                Ok(id) => {
                    &&& final(regs).eax == id.value
                    &&& final(k).processes@.len() == old(k).processes@.len() + 1
                    &&& final(k).processes.next_pid == old(k).processes.next_pid + 1
                    &&& final(k).processes.current == old(k).processes.current
                    &&& crate::sched::is_child_of(
                        final(k).processes@,
                        id.value,
                        old(k).processes.current.value,
                    )
                },
                Err(e) => final(regs).eax == e.spec_to_code() && final(k).processes == old(
                    k,
                ).processes && final(k).allocator@ == old(k).allocator@,
            }
        }),
        // wait_pid: a bad status pointer is refused first; a reaped child
        // leaves the task map, with its exit code stored through the
        // pointer and its id in register A.
        old(regs).eax == 0x09 ==> (if !spec_word_writable(*old(k), old(regs).ecx) {
            done && final(regs).eax == SystemError::BadAddress.spec_to_code() && *final(k) == *old(
                k,
            ) && *final(mem) == *old(mem)
        } else {
            match crate::sched::spec_wait_pid_result(old(k).processes, old(regs).ebx) {
                WaitPidOutcome::Reaped(pid, code) => {
                    &&& done
                    &&& final(regs).eax == pid.value
                    &&& final(k).processes@ == old(k).processes@.remove(
                        old(k).processes.spec_index_of(old(regs).ebx),
                    )
                    &&& UserMemory::spec_u32_le(final(mem).spec_read(old(regs).ecx as int, 4))
                        == code
                },
                WaitPidOutcome::NotFound => done && final(regs).eax
                    == SystemError::NotFound.spec_to_code() && final(k).processes == old(
                    k,
                ).processes && *final(mem) == *old(mem),
                WaitPidOutcome::Pending => !done && final(k).processes == old(k).processes
                    && *final(mem) == *old(mem),
            }
        }),
        // open: both the descriptor and the string it names must pass the
        // region check; register A then carries the new handle or the code.
        old(regs).eax == 0x10 ==> done && *final(mem) == *old(mem) && (if !spec_user_range_ok(
            *old(k),
            old(regs).ebx as int,
            8,
            false,
        ) {
            final(regs).eax == SystemError::BadAddress.spec_to_code() && *final(k) == *old(k)
        } else {
            let ptr = UserMemory::spec_u32_le(old(mem).spec_read(old(regs).ebx as int, 4));
            let plen = UserMemory::spec_u32_le(old(mem).spec_read(old(regs).ebx + 4, 4));
            if !spec_user_range_ok(*old(k), ptr, plen, false) {
                final(regs).eax == SystemError::BadAddress.spec_to_code() && *final(k) == *old(k)
            } else {
                let path = if plen == 0 {
                    Seq::<u8>::empty()
                } else {
                    old(mem).spec_read(ptr, plen)
                };
                match spec_open_path_result(*old(k), path) {
                    Ok(fh) => final(regs).eax == fh.handle && final(k).spec_lookup_handle(
                        fh.handle as int,
                    ) is Some && count_open(final(k).spec_current_process().open_files@)
                        == count_open(old(k).spec_current_process().open_files@) + 1,
                    Err(e) => final(regs).eax == e.spec_to_code(),
                }
            }
        }),
        // close: the handle is vacated and resolves to nothing afterwards.
        old(regs).eax == 0x11 ==> done && *final(mem) == *old(mem) && (match old(
            k,
        ).spec_lookup_handle(old(regs).ebx as int) {
            Some(pair) => {
                &&& final(regs).eax == 0
                &&& final(k).spec_current_process().open_files@
                    == crate::handles::spec_close_handle(
                    old(k).spec_current_process().open_files@,
                    old(regs).ebx as int,
                )
                &&& final(k).spec_lookup_handle(old(regs).ebx as int) is None
            },
            None => final(regs).eax == SystemError::BadHandle.spec_to_code() && *final(k) == *old(
                k,
            ),
        }),
        // read: the destination must be writable; the bytes the filesystem
        // produced land there, their count in register A. An empty pipe
        // blocks instead of completing.
        old(regs).eax == 0x12 ==> (if !spec_user_range_ok(
            *old(k),
            old(regs).ecx as int,
            old(regs).edx as int,
            true,
        ) {
            done && final(regs).eax == SystemError::BadAddress.spec_to_code() && *final(k) == *old(
                k,
            ) && *final(mem) == *old(mem)
        } else {
            match spec_file_read_result(*old(k), old(regs).ebx, old(regs).edx as nat) {
                Ok(v) => {
                    &&& done
                    &&& final(regs).eax == v.len()
                    &&& (v.len() > 0 ==> final(mem).bytes@ == old(mem).spec_write(
                        old(regs).ecx as int,
                        v,
                    ))
                    &&& (v.len() == 0 ==> *final(mem) == *old(mem))
                    &&& final(k).processes == old(k).processes
                    &&& final(k).allocator == old(k).allocator
                },
                Err(e) => {
                    &&& *final(mem) == *old(mem)
                    &&& final(k).drives@ == old(k).drives@
                    &&& final(k).processes == old(k).processes
                    &&& (e == SystemError::WouldBlock ==> !done)
                    &&& (e != SystemError::WouldBlock ==> done && final(regs).eax
                        == e.spec_to_code())
                },
            }
        }),
        // write: the source must be readable; the filesystem's accepted
        // count lands in register A. A full pipe blocks instead.
        old(regs).eax == 0x13 ==> *final(mem) == *old(mem) && (if !spec_user_range_ok(
            *old(k),
            old(regs).ecx as int,
            old(regs).edx as int,
            false,
        ) {
            done && final(regs).eax == SystemError::BadAddress.spec_to_code() && *final(k) == *old(
                k,
            )
        } else {
            let data = if old(regs).edx == 0 {
                Seq::<u8>::empty()
            } else {
                old(mem).spec_read(old(regs).ecx as int, old(regs).edx as int)
            };
            match spec_file_write_result(*old(k), old(regs).ebx, data) {
                Ok(n) => {
                    &&& done
                    &&& final(regs).eax == n
                    &&& final(k).processes == old(k).processes
                    &&& final(k).allocator == old(k).allocator
                },
                Err(e) => {
                    &&& final(k).drives@ == old(k).drives@
                    &&& final(k).processes == old(k).processes
                    &&& (e == SystemError::WouldBlock ==> !done)
                    &&& (e != SystemError::WouldBlock ==> done && final(regs).eax
                        == e.spec_to_code())
                },
            }
        }),
        // dup: register A carries the duplicate handle, bound as asked.
        old(regs).eax == 0x1d ==> done && *final(mem) == *old(mem) && (match spec_file_dup_result(
            *old(k),
            old(regs).ebx,
            old(regs).ecx,
        ) {
            Ok(fh) => final(regs).eax == fh.handle && final(k).spec_lookup_handle(
                fh.handle as int,
            ) is Some,
            Err(e) => final(regs).eax == e.spec_to_code(),
        }),
        // ioctl: register A carries the filesystem's answer; a stored
        // answer goes through the pointer in D, with zero in A.
        old(regs).eax == 0x1e ==> done && final(k).processes == old(k).processes
            && final(k).allocator == old(k).allocator && final(k).drives@ == old(k).drives@
            && (match spec_file_ioctl_result(
            *old(k),
            old(regs).ebx,
            old(regs).ecx,
            old(regs).edx,
        ) {
            Ok(v) => final(regs).eax == v,
            Err(e) => final(regs).eax == e.spec_to_code() && *final(mem) == *old(mem),
        }),
        // pipe: both out-pointers must be writable; the two fresh handles
        // are stored through them, the read end first.
        old(regs).eax == 0x1f ==> (if !(spec_word_writable(*old(k), old(regs).ebx)
            && spec_word_writable(*old(k), old(regs).ecx)) {
            done && final(regs).eax == SystemError::BadAddress.spec_to_code() && *final(k) == *old(
                k,
            ) && *final(mem) == *old(mem)
        } else {
            match spec_pipe_create_result(*old(k)) {
                Ok(ends) => {
                    &&& done
                    &&& final(regs).eax == 0
                    &&& final(k).spec_lookup_handle(ends.0.handle as int) is Some
                    &&& final(k).spec_lookup_handle(ends.1.handle as int) is Some
                    &&& UserMemory::spec_u32_le(final(mem).spec_read(old(regs).ecx as int, 4))
                        == ends.1.handle
                    &&& ((old(regs).ebx + 4 <= old(regs).ecx || old(regs).ecx + 4 <= old(
                        regs,
                    ).ebx) ==> UserMemory::spec_u32_le(
                        final(mem).spec_read(old(regs).ebx as int, 4),
                    ) == ends.0.handle)
                },
                Err(e) => done && final(regs).eax == e.spec_to_code() && *final(mem) == *old(mem),
            }
        }),
        !done ==> *final(regs) == *old(regs),
{
    let method: u32 = regs.eax;
    match method {
        0x00 => {
            // exit: record the code; the caller never runs again, so the
            // scheduler moves on at once.
            let code: u32 = regs.ebx;
            exit_current(&mut k.processes, code);
            yield_coop(&mut k.processes);
            regs.eax = 0;
            true
        },
        0x01 => {
            // fork
            if k.processes.next_pid >= 0xffff_fffe {
                regs.eax = SystemError::OutOfResources.to_code();
                return true;
            }
            match fork(&mut k.processes, &mut k.allocator, 0) {
                Ok(id) => {
                    regs.eax = id.as_u32();
                },
                Err(e) => {
                    regs.eax = e.to_code();
                },
            }
            true
        },
        0x02 => {
            // exec: loading a new image is the loader's business, outside
            // this core.
            regs.eax = SystemError::UnsupportedCommand.to_code();
            true
        },
        0x03 => {
            // get_pid
            regs.eax = k.processes.current.as_u32();
            true
        },
        0x05 => {
            // sleep
            let ms: u32 = regs.ebx;
            sleep_current(&mut k.processes, ms as usize);
            yield_coop(&mut k.processes);
            regs.eax = 0;
            true
        },
        0x06 => {
            // yield
            yield_coop(&mut k.processes);
            regs.eax = 0;
            true
        },
        0x09 => {
            // wait_pid: the status pointer must be writable before any
            // reaping happens.
            let target: u32 = regs.ebx;
            let status_ptr: u32 = regs.ecx;
            if !check_user_range(k, status_ptr, 4, true) {
                regs.eax = SystemError::BadAddress.to_code();
                return true;
            }
            proof {
                lemma_covered_range_in_window(
                    *mem,
                    k.spec_current_process().memory_regions@,
                    status_ptr as int,
                    4,
                    true,
                );
            }
            match wait_pid(&mut k.processes, &mut k.allocator, target) {
                WaitPidOutcome::Reaped(pid, code) => {
                    mem.write_u32(status_ptr, code);
                    regs.eax = pid.as_u32();
                    true
                },
                WaitPidOutcome::NotFound => {
                    regs.eax = SystemError::NotFound.to_code();
                    true
                },
                WaitPidOutcome::Pending => false,
            }
        },
        0x10 => {
            // open: register B points at a {pointer, length} pair naming
            // the path.
            let str_ptr: u32 = regs.ebx;
            if !check_user_range(k, str_ptr, 8, false) {
                regs.eax = SystemError::BadAddress.to_code();
                return true;
            }
            proof {
                lemma_covered_range_in_window(
                    *mem,
                    k.spec_current_process().memory_regions@,
                    str_ptr as int,
                    8,
                    false,
                );
            }
            let path_ptr: u32 = mem.read_u32(str_ptr);
            let path_len: u32 = mem.read_u32(str_ptr + 4);
            if !check_user_range(k, path_ptr, path_len, false) {
                regs.eax = SystemError::BadAddress.to_code();
                return true;
            }
            let path: Vec<u8> = if path_len == 0 {
                Vec::new()
            } else {
                proof {
                    lemma_covered_range_in_window(
                        *mem,
                        k.spec_current_process().memory_regions@,
                        path_ptr as int,
                        path_len as int,
                        false,
                    );
                }
                mem.read_bytes(path_ptr, path_len)
            };
            match open_path(k, path.as_slice()) {
                Ok(fh) => {
                    regs.eax = fh.as_u32();
                },
                Err(e) => {
                    regs.eax = e.to_code();
                },
            }
            true
        },
        0x11 => {
            // close
            let handle: u32 = regs.ebx;
            match file_close(k, handle) {
                Ok(()) => {
                    regs.eax = 0;
                },
                Err(e) => {
                    regs.eax = e.to_code();
                },
            }
            true
        },
        0x12 => {
            // read: register C points at the destination buffer of length D.
            let handle: u32 = regs.ebx;
            let dest: u32 = regs.ecx;
            let len: u32 = regs.edx;
            if !check_user_range(k, dest, len, true) {
                regs.eax = SystemError::BadAddress.to_code();
                return true;
            }
            match file_read(k, handle, len as usize) {
                Ok(v) => {
                    if v.len() > 0 {
                        proof {
                            lemma_covered_range_in_window(
                                *mem,
                                old(k).spec_current_process().memory_regions@,
                                dest as int,
                                len as int,
                                true,
                            );
                        }
                        mem.write_bytes(dest, v.as_slice());
                    }
                    regs.eax = v.len() as u32;
                    true
                },
                Err(e) => {
                    if matches!(e, SystemError::WouldBlock) {
                        false
                    } else {
                        regs.eax = e.to_code();
                        true
                    }
                },
            }
        },
        0x13 => {
            // write: register C points at the source buffer of length D.
            let handle: u32 = regs.ebx;
            let src: u32 = regs.ecx;
            let len: u32 = regs.edx;
            if !check_user_range(k, src, len, false) {
                regs.eax = SystemError::BadAddress.to_code();
                return true;
            }
            let data: Vec<u8> = if len == 0 {
                Vec::new()
            } else {
                proof {
                    lemma_covered_range_in_window(
                        *mem,
                        k.spec_current_process().memory_regions@,
                        src as int,
                        len as int,
                        false,
                    );
                }
                mem.read_bytes(src, len)
            };
            match file_write(k, handle, data.as_slice()) {
                Ok(n) => {
                    regs.eax = n as u32;
                    true
                },
                Err(e) => {
                    if matches!(e, SystemError::WouldBlock) {
                        false
                    } else {
                        regs.eax = e.to_code();
                        true
                    }
                },
            }
        },
        0x1d => {
            // dup
            let src: u32 = regs.ebx;
            let dst: u32 = regs.ecx;
            match file_dup(k, src, dst) {
                Ok(fh) => {
                    regs.eax = fh.as_u32();
                },
                Err(e) => {
                    regs.eax = e.to_code();
                },
            }
            true
        },
        0x1e => {
            // ioctl
            let handle: u32 = regs.ebx;
            let command: u32 = regs.ecx;
            let arg: u32 = regs.edx;
            match file_ioctl(k, mem, handle, command, arg) {
                Ok(v) => {
                    regs.eax = v;
                },
                Err(e) => {
                    regs.eax = e.to_code();
                },
            }
            true
        },
        0x1f => {
            // pipe: registers B and C point at the words receiving the two
            // new handles.
            let read_out: u32 = regs.ebx;
            let write_out: u32 = regs.ecx;
            if !check_user_range(k, read_out, 4, true) || !check_user_range(k, write_out, 4, true) {
                regs.eax = SystemError::BadAddress.to_code();
                return true;
            }
            proof {
                lemma_covered_range_in_window(
                    *mem,
                    k.spec_current_process().memory_regions@,
                    read_out as int,
                    4,
                    true,
                );
                lemma_covered_range_in_window(
                    *mem,
                    k.spec_current_process().memory_regions@,
                    write_out as int,
                    4,
                    true,
                );
            }
            match pipe_create(k) {
                Ok((fr, fw)) => {
                    mem.write_u32(read_out, fr.as_u32());
                    mem.write_u32(write_out, fw.as_u32());
                    regs.eax = 0;
                },
                Err(e) => {
                    regs.eax = e.to_code();
                },
            }
            true
        },
        0xffff => {
            // debug
            regs.eax = 0;
            true
        },
        0x04 | 0x07 | 0x08 | 0x14 | 0x15 | 0x16 | 0x17 | 0x18 | 0x19 | 0x1a | 0x1b | 0x1c | 0x30
            | 0x31 | 0x32 | 0x33 => {
            // Reserved methods without defined behavior yet.
            regs.eax = SystemError::UnsupportedCommand.to_code();
            true
        },
        _ => {
            // An unknown method.
            regs.eax = SystemError::Unknown.to_code();
            true
        },
    }
}

} // verus!
