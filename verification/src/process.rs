//! Process state.
//!
//! A process owns its identity, its address space (page directory and memory
//! regions), one kernel-stack page, its table of open files, and a run
//! state. Processes are created by forking an existing one; only the idle
//! task and the first real task are hand-constructed.

use vstd::prelude::*;

use crate::error::SystemError;
use crate::frames::{count_free, Frame};
use crate::handles::{
    count_open, spec_close_handle, spec_open_handle, DeviceHandlePair, FileHandle, FileHandleMap,
    LocalHandle,
};
use crate::frames::FrameAllocator;
use crate::paging::{PageDirectory, TemporaryPage, STACK_START};
use crate::regions::{MemoryRegions, VirtualMemoryRegion};

verus! {

/// Identity of a process. Process 0 is the idle task; ids are minted by a
/// monotonic counter starting at 1.
#[derive(Clone, Copy, Debug, PartialEq, Eq, Structural)]
pub struct ProcessID {
    pub value: u32,
}

impl ProcessID {
    pub fn new(value: u32) -> (id: ProcessID)
        ensures
            id.value == value,
    {
        ProcessID { value }
    }

    pub fn as_u32(&self) -> (v: u32)
        ensures
            v == self.value,
    {
        self.value
    }
}

/// Whether a process can be scheduled.
#[derive(Clone, Copy, Debug, PartialEq, Eq, Structural)]
pub enum RunState {
    /// Runnable.
    Running,
    /// Waiting out a timeout; the payload is the milliseconds remaining.
    Sleeping(usize),
    /// Finished with an exit code, waiting to be reaped.
    Exited(u32),
}

/// One external timer tick: a sleeping process comes closer to waking, and
/// wakes when the tick covers the rest of its timeout. Other states are
/// untouched.
pub open spec fn spec_tick(state: RunState, delta_ms: nat) -> RunState {
    match state {
        RunState::Sleeping(n) => if n > delta_ms {
            RunState::Sleeping((n - delta_ms) as usize)
        } else {
            RunState::Running
        },
        other => other,
    }
}

/// Total milliseconds of a series of ticks.
pub open spec fn sum_ticks(deltas: Seq<usize>) -> nat
    decreases deltas.len(),
{
    if deltas.len() == 0 {
        0
    } else {
        sum_ticks(deltas.drop_last()) + deltas.last() as nat
    }
}

/// The run state after a series of ticks.
pub open spec fn apply_ticks(state: RunState, deltas: Seq<usize>) -> RunState
    decreases deltas.len(),
{
    if deltas.len() == 0 {
        state
    } else {
        spec_tick(apply_ticks(state, deltas.drop_last()), deltas.last() as nat)
    }
}

/// A process sleeping for `n` ms is, after any series of ticks totalling
/// `delta` ms, sleeping for `n - delta` ms — or running, once `delta`
/// reaches `n`.
pub proof fn lemma_sleep_accounting(n: usize, deltas: Seq<usize>)
    ensures
        apply_ticks(RunState::Sleeping(n), deltas) == if deltas.len() == 0 {
            RunState::Sleeping(n)
        } else if sum_ticks(deltas) >= n {
            RunState::Running
        } else {
            RunState::Sleeping((n - sum_ticks(deltas)) as usize)
        },
    decreases deltas.len(),
{
    if deltas.len() > 0 {
        let rest = deltas.drop_last();
        let d = deltas.last();
        lemma_sleep_accounting(n, rest);
        assert(sum_ticks(deltas) == sum_ticks(rest) + d);
        assert(apply_ticks(RunState::Sleeping(n), deltas) == spec_tick(
            apply_ticks(RunState::Sleeping(n), rest),
            d as nat,
        ));
        if sum_ticks(rest) >= n {
            assert(apply_ticks(RunState::Sleeping(n), deltas) == RunState::Running);
        } else {
            let m: usize = (n - sum_ticks(rest)) as usize;
            assert(apply_ticks(RunState::Sleeping(n), rest) == RunState::Sleeping(m));
            if m > d {
                assert(apply_ticks(RunState::Sleeping(n), deltas) == RunState::Sleeping(
                    (m - d) as usize,
                ));
                assert((m - d) as usize == (n - sum_ticks(deltas)) as usize);
            } else {
                assert(apply_ticks(RunState::Sleeping(n), deltas) == RunState::Running);
                assert(sum_ticks(deltas) >= n);
            }
        }
    }
}

/// A process that has woken up stays running through later ticks.
pub proof fn lemma_running_stays_running(deltas: Seq<usize>)
    ensures
        apply_ticks(RunState::Running, deltas) == RunState::Running,
    decreases deltas.len(),
{
    if deltas.len() > 0 {
        lemma_running_stays_running(deltas.drop_last());
    }
}

/// Everything the kernel knows about one process.
pub struct ProcessState {
    pub pid: ProcessID,
    pub parent: ProcessID,
    pub memory_regions: MemoryRegions,
    pub page_directory: PageDirectory,
    pub kernel_esp: usize,
    pub kernel_stack: Vec<u32>,
    pub stack_frame: Option<Frame>,
    pub open_files: FileHandleMap,
    pub run_state: RunState,
}

impl ProcessState {
    /// The kernel stack pointer stays inside the stack page, word-aligned,
    /// and the other components keep their own invariants.
    pub open spec fn wf(self) -> bool {
        &&& STACK_START <= self.kernel_esp <= STACK_START + 0x1000 - 4
        &&& self.kernel_esp % 4 == 0
        &&& self.kernel_stack@.len() == 1024
        &&& self.memory_regions.wf()
        &&& self.open_files.wf()
        &&& self.page_directory.wf()
    }

    /// The word index of the kernel stack pointer within the stack page.
    pub open spec fn spec_esp_index(self) -> int {
        (self.kernel_esp - STACK_START) / 4
    }

    /// Hand-construct the first process; it is its own parent. Its page
    /// directory comes from boot and its kernel stack is the boot stack.
    pub fn first(pid: ProcessID, heap_start: u32, page_directory: PageDirectory) -> (p:
        ProcessState)
        requires
            0xc000_0000 <= heap_start,
            heap_start + 0x10_0000 <= 0xffbf_e000,
            page_directory.wf(),
        ensures
            p.wf(),
            p.pid == pid,
            p.parent == pid,
            p.page_directory == page_directory,
            p.run_state == RunState::Running,
            p.open_files@.len() == 0,
            p.stack_frame is None,
            p.memory_regions@ == MemoryRegions::spec_initial(heap_start),
    {
        ProcessState {
            pid,
            parent: pid,
            memory_regions: MemoryRegions::initial(heap_start),
            page_directory,
            kernel_esp: (STACK_START + 0x1000 - 4) as usize,
            kernel_stack: vec![0u32; 1024],
            stack_frame: None,
            open_files: FileHandleMap::new(),
            run_state: RunState::Running,
        }
    }

    /// Duplicate this process for a fork: same regions (a structural copy),
    /// a fresh page directory sharing the kernel window (built by the
    /// caller), a freshly allocated kernel-stack page, an empty file table,
    /// and a clean kernel stack ready for its first entry.
    pub fn fork(&self, pid: ProcessID, page_directory: PageDirectory, stack_frame: Frame) -> (p:
        ProcessState)
        requires
            self.wf(),
            page_directory.wf(),
        ensures
            p.wf(),
            p.pid == pid,
            p.parent == self.pid,
            p.memory_regions@ == self.memory_regions@,
            p.page_directory == page_directory,
            p.stack_frame == Some(stack_frame),
            p.open_files@.len() == 0,
            p.run_state == RunState::Running,
            p.kernel_esp == STACK_START + 0x1000 - 4,
    {
        ProcessState {
            pid,
            parent: self.pid,
            memory_regions: self.memory_regions.fork(),
            page_directory,
            kernel_esp: (STACK_START + 0x1000 - 4) as usize,
            kernel_stack: vec![0u32; 1024],
            stack_frame: Some(stack_frame),
            open_files: FileHandleMap::new(),
            run_state: RunState::Running,
        }
    }

    pub fn get_id(&self) -> (id: ProcessID)
        ensures
            id == self.pid,
    {
        self.pid
    }

    pub fn get_page_directory(&self) -> (d: &PageDirectory)
        ensures
            d == &self.page_directory,
    {
        &self.page_directory
    }

    pub fn get_memory_regions(&self) -> (r: &MemoryRegions)
        ensures
            r == &self.memory_regions,
    {
        &self.memory_regions
    }

    pub fn get_kernel_stack_pointer(&self) -> (esp: usize)
        ensures
            esp == self.kernel_esp,
    {
        self.kernel_esp
    }

    /// The region of this process containing `addr`, if any; the page-fault
    /// path and user-pointer checks rely on it.
    pub fn get_range_containing_address(&self, addr: u32) -> (r: Option<VirtualMemoryRegion>)
        ensures
            match r {
                Some(region) => region.spec_contains(addr as int) && exists|i: int|
                    0 <= i < self.memory_regions@.len() && #[trigger] self.memory_regions@[i]
                        == region,
                None => forall|i: int|
                    0 <= i < self.memory_regions@.len() ==> !(
                    #[trigger] self.memory_regions@[i]).spec_contains(addr as int),
            },
    {
        self.memory_regions.get_range_containing_address(addr)
    }

    /// Bind a fresh file handle of this process to `(drive, local)`.
    pub fn open_file(&mut self, drive: usize, local: LocalHandle) -> (r: Result<
        FileHandle,
        SystemError,
    >)
        requires
            old(self).wf(),
        ensures
            final(self).wf(),
            *final(self) == (ProcessState { open_files: final(self).open_files, ..*old(self) }),
            match r {
                Ok(fh) => {
                    &&& fh.handle == crate::handles::first_vacant(old(self).open_files@)
                    &&& crate::handles::first_vacant(old(self).open_files@) < 0xffff_fffe
                    &&& final(self).open_files@ == spec_open_handle(
                        old(self).open_files@,
                        DeviceHandlePair { drive, handle: local },
                    )
                    &&& final(self).open_files.spec_lookup(fh.handle as int) == Some(
                        DeviceHandlePair { drive, handle: local },
                    )
                    &&& count_open(final(self).open_files@) == count_open(old(self).open_files@)
                        + 1
                },
                Err(e) => {
                    &&& e == SystemError::OutOfResources
                    &&& crate::handles::first_vacant(old(self).open_files@) >= 0xffff_fffe
                    &&& final(self).open_files@ == old(self).open_files@
                },
            },
    {
        self.open_files.open_handle(drive, local)
    }

    /// Vacate a file handle of this process.
    pub fn close_file(&mut self, handle: FileHandle)
        requires
            old(self).wf(),
        ensures
            final(self).wf(),
            *final(self) == (ProcessState { open_files: final(self).open_files, ..*old(self) }),
            final(self).open_files@ == spec_close_handle(
                old(self).open_files@,
                handle.handle as int,
            ),
            final(self).open_files.spec_lookup(handle.handle as int) is None,
    {
        self.open_files.close_handle(handle);
    }

    /// What a file handle of this process resolves to, if open.
    pub fn get_open_file_info(&self, handle: FileHandle) -> (r: Option<DeviceHandlePair>)
        ensures
            r == self.open_files.spec_lookup(handle.handle as int),
    {
        self.open_files.get_drive_and_handle(handle)
    }

    /// Go to sleep for `ms` milliseconds; the caller yields afterwards.
    pub fn sleep(&mut self, ms: usize)
        requires
            old(self).wf(),
        ensures
            final(self).wf(),
            *final(self) == (ProcessState { run_state: RunState::Sleeping(ms), ..*old(self) }),
    {
        self.run_state = RunState::Sleeping(ms);
    }

    /// Record an exit code; the process stays in the map until reaped.
    pub fn exit(&mut self, code: u32)
        requires
            old(self).wf(),
        ensures
            final(self).wf(),
            *final(self) == (ProcessState { run_state: RunState::Exited(code), ..*old(self) }),
    {
        self.run_state = RunState::Exited(code);
    }

    /// Apply one external timer tick of `delta_ms` milliseconds.
    pub fn update_tick(&mut self, delta_ms: usize)
        requires
            old(self).wf(),
        ensures
            final(self).wf(),
            *final(self) == (ProcessState {
                run_state: spec_tick(old(self).run_state, delta_ms as nat),
                ..*old(self)
            }),
    {
        match self.run_state {
            RunState::Sleeping(duration) => {
                if duration > delta_ms {
                    self.run_state = RunState::Sleeping(duration - delta_ms);
                } else {
                    self.run_state = RunState::Running;
                }
            },
            _ => (),
        }
    }

    /// Whether the scheduler may pick this process.
    pub fn is_running(&self) -> (r: bool)
        ensures
            r == (self.run_state == RunState::Running),
    {
        match self.run_state {
            RunState::Running => true,
            _ => false,
        }
    }

    /// Make the page backing this process's kernel stack pointer editable
    /// through the temporary page: map the directory frame there to find
    /// the stack table, allocate a backing frame if the stack page has
    /// none yet, and leave that frame mapped at the temporary page.
    pub fn make_current_stack_frame_editable(
        &mut self,
        allocator: &mut FrameAllocator,
        temp: &mut TemporaryPage,
    ) -> (r: Result<(), SystemError>)
        requires
            old(self).wf(),
            old(allocator).wf(),
        ensures
            final(self).wf(),
            final(allocator).wf(),
            final(allocator)@.len() == old(allocator)@.len(),
            final(allocator).spec_reserved() == old(allocator).spec_reserved(),
            match r {
                Ok(()) => {
                    &&& final(self).stack_frame is Some
                    &&& final(temp).mapped == final(self).stack_frame
                    &&& *final(self) == (ProcessState {
                        stack_frame: final(self).stack_frame,
                        ..*old(self)
                    })
                    &&& (old(self).stack_frame is Some ==> final(self).stack_frame == old(
                        self,
                    ).stack_frame && final(allocator)@ == old(allocator)@)
                },
                Err(e) => {
                    &&& e == SystemError::OutOfResources
                    &&& old(self).stack_frame is None
                    &&& count_free(old(allocator)@) == 0
                    &&& *final(self) == *old(self)
                    &&& final(allocator)@ == old(allocator)@
                },
            },
    {
        // The directory itself first: its entry leads to the stack table.
        temp.map_frame_to_temporary_page(self.page_directory.frame);
        match self.stack_frame {
            Some(frame) => {
                temp.map_frame_to_temporary_page(frame);
                Ok(())
            },
            None => {
                // The stack page has no backing yet: allocate its frame.
                let frame = match allocator.allocate() {
                    Ok(f) => f,
                    Err(e) => {
                        return Err(e);
                    },
                };
                self.stack_frame = Some(frame);
                temp.map_frame_to_temporary_page(frame);
                Ok(())
            },
        }
    }

    /// Push one word onto this process's kernel stack.
    pub fn stack_push_u32(&mut self, value: u32)
        requires
            old(self).wf(),
            old(self).kernel_esp >= STACK_START + 4,
        ensures
            final(self).wf(),
            final(self).kernel_esp == old(self).kernel_esp - 4,
            final(self).kernel_stack@ == old(self).kernel_stack@.update(
                final(self).spec_esp_index(),
                value,
            ),
            *final(self) == (ProcessState {
                kernel_esp: final(self).kernel_esp,
                kernel_stack: final(self).kernel_stack,
                ..*old(self)
            }),
    {
        self.kernel_esp = self.kernel_esp - 4;
        let index: usize = (self.kernel_esp - STACK_START as usize) / 4;
        self.kernel_stack.set(index, value);
    }

    /// Build the five-word interrupt-return frame on this process's kernel
    /// stack, so that entering user mode pops straight into `func` with the
    /// user stack pointer `esp`, ring-3 segments, and interrupts enabled.
    pub fn set_initial_entry_point(&mut self, func: u32, esp: u32)
        requires
            old(self).wf(),
            old(self).kernel_esp >= STACK_START + 20,
        ensures
            final(self).wf(),
            final(self).kernel_esp == old(self).kernel_esp - 20,
            // The frame, from the new stack top upward: eip, cs, eflags, esp, ss.
            final(self).kernel_stack@[final(self).spec_esp_index()] == func,
            final(self).kernel_stack@[final(self).spec_esp_index() + 1] == 0x1bu32,
            final(self).kernel_stack@[final(self).spec_esp_index() + 2] == 0x200u32,
            final(self).kernel_stack@[final(self).spec_esp_index() + 3] == esp,
            final(self).kernel_stack@[final(self).spec_esp_index() + 4] == 0x23u32,
            *final(self) == (ProcessState {
                kernel_esp: final(self).kernel_esp,
                kernel_stack: final(self).kernel_stack,
                ..*old(self)
            }),
    {
        // Stack segment selector (ring 3).
        self.stack_push_u32(0x23);
        // User stack pointer.
        self.stack_push_u32(esp);
        // Flags: interrupts enabled.
        self.stack_push_u32(0x200);
        // Code segment selector (ring 3).
        self.stack_push_u32(0x1b);
        // Instruction pointer.
        self.stack_push_u32(func);
    }
}

} // verus!
