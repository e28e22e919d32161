//! The task map and the cooperative scheduler.
//!
//! The task map holds every live process, ordered by id, and remembers which
//! one is current. Scheduling is strictly cooperative: a context switch
//! happens only when the running process yields, sleeps, or blocks. The
//! policy picks the first runnable process whose id follows the current one,
//! wrapping around to the smallest runnable id.

use vstd::prelude::*;

use crate::error::SystemError;
use crate::frames::{count_free, Frame, FrameAllocator};
use crate::paging::{fork_page_directory, kernel_window_shared, PageDirectory};
use crate::process::{ProcessID, ProcessState, RunState, spec_tick};

verus! {

/// Ids are strictly increasing along the vector.
pub open spec fn pids_sorted(s: Seq<ProcessState>) -> bool {
    forall|i: int, j: int| 0 <= i < j < s.len() ==> s[i].pid.value < s[j].pid.value
}

/// Some live process has this id.
pub open spec fn contains_pid(s: Seq<ProcessState>, id: u32) -> bool {
    exists|i: int| 0 <= i < s.len() && (#[trigger] s[i]).pid.value == id
}

/// The process at `i` could be switched to from the process with id `cur`:
/// it is runnable and is not the current one.
pub open spec fn runnable_other(s: Seq<ProcessState>, cur: u32, i: int) -> bool {
    &&& 0 <= i < s.len()
    &&& s[i].run_state == RunState::Running
    &&& s[i].pid.value != cur
}

/// Mapping of ids to process structures; also keeps track of the current
/// process and mints new ids.
pub struct ProcessMap {
    pub current: ProcessID,
    pub next_pid: u32,
    pub processes: Vec<ProcessState>,
}

/// Give out a mutable borrow of one process of the task map.
fn process_mut(v: &mut Vec<ProcessState>, i: usize) -> (p: &mut ProcessState)
    requires
        i < old(v)@.len(),
    ensures
        *p == old(v)@[i as int],
        final(v)@ == old(v)@.update(i as int, *final(p)),
{
    &mut v[i]
}

impl ProcessMap {
    pub open spec fn view(self) -> Seq<ProcessState> {
        self.processes@
    }

    /// Processes are well-formed and strictly ordered by id, every id is
    /// below the mint counter, and the current id is live.
    pub open spec fn wf(self) -> bool {
        &&& pids_sorted(self.processes@)
        &&& forall|i: int| 0 <= i < self.processes@.len() ==> (#[trigger] self.processes@[i]).wf()
        &&& forall|i: int|
            0 <= i < self.processes@.len() ==> (#[trigger] self.processes@[i]).pid.value
                < self.next_pid
        &&& contains_pid(self.processes@, self.current.value)
    }

    /// The index of the process with this id, if it is live.
    pub open spec fn spec_index_of(self, id: u32) -> int {
        choose|i: int| 0 <= i < self.processes@.len() && (#[trigger] self.processes@[i]).pid.value == id
    }

    /// In a sorted map, any index carrying an id is the index the id
    /// resolves to.
    pub proof fn lemma_spec_index_of(self, id: u32, i: int)
        requires
            pids_sorted(self.processes@),
            0 <= i < self.processes@.len(),
            self.processes@[i].pid.value == id,
        ensures
            self.spec_index_of(id) == i,
            contains_pid(self.processes@, id),
    {
        assert(contains_pid(self.processes@, id));
        let w = choose|j: int|
            0 <= j < self.processes@.len() && (#[trigger] self.processes@[j]).pid.value == id;
        self.lemma_id_unique(w, i);
    }

    /// An empty map; `initialize` populates it with the idle task.
    pub fn new() -> (m: ProcessMap)
        ensures
            m.current.value == 0,
            m.next_pid == 1,
            m@.len() == 0,
    {
        ProcessMap { current: ProcessID::new(0), next_pid: 1, processes: Vec::new() }
    }

    /// Two indices with the same id are the same index.
    pub proof fn lemma_id_unique(self, i: int, j: int)
        requires
            pids_sorted(self.processes@),
            0 <= i < self.processes@.len(),
            0 <= j < self.processes@.len(),
            self.processes@[i].pid.value == self.processes@[j].pid.value,
        ensures
            i == j,
    {
    }

    /// Find the index of a live process by id.
    pub fn index_of(&self, id: u32) -> (r: Option<usize>)
        requires
            pids_sorted(self.processes@),
        ensures
            match r {
                Some(i) => i < self@.len() && self@[i as int].pid.value == id && i as int
                    == self.spec_index_of(id),
                None => !contains_pid(self@, id),
            },
    {
        let len: usize = self.processes.len();
        let mut i: usize = 0;
        while i < len
            invariant
                i <= len,
                len == self.processes@.len(),
                pids_sorted(self.processes@),
                forall|j: int| 0 <= j < i ==> (#[trigger] self.processes@[j]).pid.value != id,
            decreases len - i,
        {
            if self.processes[i].pid.value == id {
                proof {
                    let w = choose|k: int|
                        0 <= k < self.processes@.len() && (#[trigger] self.processes@[k]).pid.value
                            == id;
                    self.lemma_id_unique(i as int, w);
                }
                return Some(i);
            }
            i += 1;
        }
        None
    }

    /// Fetch a live process by id.
    pub fn get_process(&self, id: &ProcessID) -> (r: Option<&ProcessState>)
        requires
            pids_sorted(self@),
        ensures
            match r {
                Some(p) => contains_pid(self@, id.value) && *p == self@[self.spec_index_of(id.value)]
                    && p.pid.value == id.value,
                None => !contains_pid(self@, id.value),
            },
    {
        match self.index_of(id.value) {
            Some(i) => Some(&self.processes[i]),
            None => None,
        }
    }

    /// The current process.
    pub fn get_current_process(&self) -> (p: &ProcessState)
        requires
            self.wf(),
        ensures
            *p == self@[self.spec_index_of(self.current.value)],
            p.pid == self.current,
            contains_pid(self@, self.current.value),
    {
        let r = self.index_of(self.current.value);
        match r {
            Some(i) => &self.processes[i],
            None => {
                // The current id is always live; a task map without it is a
                // fatal kernel bug, and well-formedness rules it out.
                proof {
                    assert(false);
                }
                &self.processes[0]
            },
        }
    }

    /// Make a live process the current one.
    pub fn make_current(&mut self, pid: ProcessID)
        requires
            old(self).wf(),
            contains_pid(old(self)@, pid.value),
        ensures
            final(self).wf(),
            final(self).current == pid,
            final(self)@ == old(self)@,
            final(self).next_pid == old(self).next_pid,
    {
        self.current = pid;
    }
}

/// Install the idle task (id 0) into an empty task map, making it current.
pub fn initialize(map: &mut ProcessMap, heap_start: u32, page_directory: PageDirectory)
    requires
        old(map)@.len() == 0,
        old(map).current.value == 0,
        old(map).next_pid == 1,
        0xc000_0000 <= heap_start,
        heap_start + 0x10_0000 <= 0xffbf_e000,
        page_directory.wf(),
    ensures
        final(map).wf(),
        final(map)@.len() == 1,
        final(map)@[0].pid.value == 0,
        final(map)@[0].run_state == RunState::Running,
        final(map)@[0].page_directory == page_directory,
        final(map).current.value == 0,
        final(map).next_pid == 1,
{
    let idle = ProcessState::first(ProcessID::new(0), heap_start, page_directory);
    map.processes.push(idle);
}

/// The id of the current process.
pub fn get_current_id(map: &ProcessMap) -> (id: ProcessID)
    ensures
        id == map.current,
{
    map.current
}

/// Fetch a live process by id.
pub fn get_process<'a>(map: &'a ProcessMap, id: &ProcessID) -> (r: Option<&'a ProcessState>)
    requires
        pids_sorted(map@),
    ensures
        match r {
            Some(p) => contains_pid(map@, id.value) && *p == map@[map.spec_index_of(id.value)]
                && p.pid.value == id.value,
            None => !contains_pid(map@, id.value),
        },
{
    map.get_process(id)
}

/// The current process.
pub fn get_current_process(map: &ProcessMap) -> (p: &ProcessState)
    requires
        map.wf(),
    ensures
        *p == map@[map.spec_index_of(map.current.value)],
        p.pid == map.current,
{
    map.get_current_process()
}

/// Find another process to switch to: the first runnable process whose id
/// follows the current id, or, wrapping around, the runnable process with
/// the smallest id. `None` when every other process is blocked.
pub fn find_next_running_process(map: &ProcessMap) -> (r: Option<ProcessID>)
    requires
        map.wf(),
    ensures
        match r {
            Some(id) => {
                &&& exists|i: int|
                    0 <= i < map@.len() && (#[trigger] map@[i]).pid.value == id.value
                        && runnable_other(map@, map.current.value, i)
                &&& id.value > map.current.value ==> forall|j: int|
                    #[trigger] runnable_other(map@, map.current.value, j) && map@[j].pid.value
                        > map.current.value ==> map@[j].pid.value >= id.value
                &&& id.value < map.current.value ==> forall|j: int|
                    #[trigger] runnable_other(map@, map.current.value, j) ==> map@[j].pid.value
                        >= id.value && map@[j].pid.value < map.current.value
            },
            None => forall|j: int| !(#[trigger] runnable_other(map@, map.current.value, j)),
        },
{
    let current_id: u32 = map.current.as_u32();
    let len: usize = map.processes.len();
    let mut first_runnable: Option<u32> = None;
    let mut i: usize = 0;
    while i < len
        invariant
            map.wf(),
            i <= len,
            len == map@.len(),
            current_id == map.current.value,
            forall|j: int|
                0 <= j < i && #[trigger] runnable_other(map@, current_id, j) ==> map@[j].pid.value
                    < current_id,
            match first_runnable {
                Some(f) => {
                    &&& exists|j: int|
                        0 <= j < i && (#[trigger] map@[j]).pid.value == f && runnable_other(
                            map@,
                            current_id,
                            j,
                        )
                    &&& forall|j: int|
                        0 <= j < i && #[trigger] runnable_other(map@, current_id, j)
                            ==> map@[j].pid.value >= f
                },
                None => forall|j: int| 0 <= j < i ==> !(#[trigger] runnable_other(map@, current_id, j)),
            },
        decreases len - i,
    {
        let p = &map.processes[i];
        let pid: u32 = p.pid.value;
        if pid != current_id {
            if p.is_running() {
                if first_runnable.is_none() {
                    first_runnable = Some(pid);
                }
                if pid > current_id {
                    proof {
                        assert forall|j: int|
                            #[trigger] runnable_other(map@, current_id, j) && map@[j].pid.value
                                > current_id implies map@[j].pid.value >= pid by {
                            if j < i {
                                assert(map@[j].pid.value < current_id);
                            } else {
                                assert(map@[i as int].pid.value <= map@[j].pid.value);
                            }
                        }
                    }
                    return Some(ProcessID::new(pid));
                }
            }
        }
        i += 1;
    }
    match first_runnable {
        Some(f) => Some(ProcessID::new(f)),
        None => None,
    }
}

/// Execute a context switch: the chosen process becomes current. Switching
/// to an id that is not live is a fatal kernel bug, so the caller must have
/// found the id in the task map. The register and stack juggling happens on
/// the way out of the kernel, outside this model.
pub fn switch_to(map: &mut ProcessMap, id: &ProcessID)
    requires
        old(map).wf(),
        contains_pid(old(map)@, id.value),
    ensures
        final(map).wf(),
        final(map).current == *id,
        final(map)@ == old(map)@,
        final(map).next_pid == old(map).next_pid,
{
    map.make_current(*id);
}

/// Cooperatively yield: switch to the next runnable process, or return
/// without switching when every other process is blocked.
pub fn yield_coop(map: &mut ProcessMap)
    requires
        old(map).wf(),
    ensures
        final(map).wf(),
        final(map)@ == old(map)@,
        final(map).next_pid == old(map).next_pid,
        (forall|j: int| !(#[trigger] runnable_other(old(map)@, old(map).current.value, j)))
            ==> final(map).current == old(map).current,
        final(map).current != old(map).current ==> exists|i: int|
            0 <= i < old(map)@.len() && (#[trigger] old(map)@[i]).pid.value
                == final(map).current.value && runnable_other(
                old(map)@,
                old(map).current.value,
                i,
            ),
{
    let next = find_next_running_process(map);
    match next {
        Some(id) => {
            proof {
                let w = choose|i: int|
                    0 <= i < map@.len() && (#[trigger] map@[i]).pid.value == id.value
                        && runnable_other(map@, map.current.value, i);
                assert(map@[w].pid.value == id.value);
            }
            switch_to(map, &id)
        },
        None => (),
    }
}

/// Apply one external timer tick of `delta_ms` milliseconds to every
/// process: sleepers get closer to waking, and wake once their timeout is
/// spent.
pub fn update_timeouts(map: &mut ProcessMap, delta_ms: usize)
    requires
        old(map).wf(),
    ensures
        final(map).wf(),
        final(map).current == old(map).current,
        final(map).next_pid == old(map).next_pid,
        final(map)@.len() == old(map)@.len(),
        forall|i: int|
            0 <= i < old(map)@.len() ==> (#[trigger] final(map)@[i]) == (ProcessState {
                run_state: spec_tick(old(map)@[i].run_state, delta_ms as nat),
                ..old(map)@[i]
            }),
{
    let len: usize = map.processes.len();
    let mut i: usize = 0;
    while i < len
        invariant
            len == map.processes@.len(),
            i <= len,
            map.current == old(map).current,
            map.next_pid == old(map).next_pid,
            forall|j: int|
                i <= j < len ==> (#[trigger] map.processes@[j]) == old(map)@[j],
            forall|j: int|
                0 <= j < i ==> (#[trigger] map.processes@[j]) == (ProcessState {
                    run_state: spec_tick(old(map)@[j].run_state, delta_ms as nat),
                    ..old(map)@[j]
                }),
            forall|j: int| 0 <= j < len ==> (#[trigger] old(map)@[j]).wf(),
        decreases len - i,
    {
        let p = process_mut(&mut map.processes, i);
        p.update_tick(delta_ms);
        i += 1;
    }
    proof {
        assert forall|j: int| 0 <= j < map@.len() implies (#[trigger] map@[j]).wf() by {
            assert(map@[j] == (ProcessState {
                run_state: spec_tick(old(map)@[j].run_state, delta_ms as nat),
                ..old(map)@[j]
            }));
        }
        assert(pids_sorted(map@)) by {
            assert forall|a: int, b: int|
                0 <= a < b < map@.len() implies map@[a].pid.value < map@[b].pid.value by {
                assert(old(map)@[a].pid.value < old(map)@[b].pid.value);
            }
        }
        let w = choose|j: int|
            0 <= j < old(map)@.len() && (#[trigger] old(map)@[j]).pid.value
                == old(map).current.value;
        assert(map@[w].pid.value == old(map).current.value);
        assert(contains_pid(map@, map.current.value));
    }
}

/// Outcome of `wait_pid`: the child was reaped with its exit code, the
/// target is not a child of the caller, or the child has not exited yet and
/// the caller must yield and retry.
#[derive(Clone, Copy, Debug, PartialEq, Eq, Structural)]
pub enum WaitPidOutcome {
    Reaped(ProcessID, u32),
    NotFound,
    Pending,
}

/// The process with id `id` is a child of the process with id `cur`.
pub open spec fn is_child_of(s: Seq<ProcessState>, id: u32, cur: u32) -> bool {
    &&& id != cur
    &&& exists|i: int|
        0 <= i < s.len() && (#[trigger] s[i]).pid.value == id && s[i].parent.value == cur
}

/// What a fork returns: the freshly minted id, or `OutOfResources` when
/// fewer than the two frames a child needs (directory and kernel stack) are
/// free.
pub open spec fn spec_fork_result(map: ProcessMap, allocator: FrameAllocator) -> Result<
    ProcessID,
    SystemError,
> {
    if count_free(allocator@) < 2 {
        Err(SystemError::OutOfResources)
    } else {
        Ok(ProcessID { value: map.next_pid })
    }
}

/// Fork the current process: a new id, a structural copy of the parent's
/// regions, a fresh kernel-stack frame, and a new page directory sharing the
/// parent's kernel window. The child is runnable at once. On allocation
/// failure nothing changes: frames already taken are released again.
///
/// `current_ticks` records the moment of creation; the model keeps no
/// clock, so it is unused here.
pub fn fork(map: &mut ProcessMap, allocator: &mut FrameAllocator, current_ticks: u32) -> (r:
    Result<ProcessID, SystemError>)
    requires
        old(map).wf(),
        old(allocator).wf(),
        old(map).next_pid < 0xffff_ffffu32,
    ensures
        final(map).wf(),
        final(allocator).wf(),
        final(allocator)@.len() == old(allocator)@.len(),
        final(allocator).spec_reserved() == old(allocator).spec_reserved(),
        r == spec_fork_result(*old(map), *old(allocator)),
        match r {
            Ok(id) => {
                let parent = old(map)@[old(map).spec_index_of(old(map).current.value)];
                let child = final(map)@[old(map)@.len() as int];
                &&& id.value == old(map).next_pid
                &&& final(map).next_pid == old(map).next_pid + 1
                &&& final(map).current == old(map).current
                &&& final(map)@.len() == old(map)@.len() + 1
                &&& forall|i: int| 0 <= i < old(map)@.len() ==> final(map)@[i] == old(map)@[i]
                &&& child.pid == id
                &&& child.parent == old(map).current
                &&& child.run_state == RunState::Running
                &&& child.open_files@.len() == 0
                &&& child.memory_regions@ == parent.memory_regions@
                &&& kernel_window_shared(child.page_directory, parent.page_directory)
                &&& child.kernel_esp == crate::paging::STACK_START + 0x1000 - 4
                // The child starts with no private user mappings, so every
                // user-reachable address of its directory lies inside its
                // regions from the first instruction on.
                &&& child.page_directory.user_tables@.len() == 0
                &&& child.page_directory.user_tables_wf()
                &&& child.page_directory.user_mappings_within(child.memory_regions@)
                &&& count_free(final(allocator)@) + 2 == count_free(old(allocator)@)
            },
            Err(e) => {
                &&& e == SystemError::OutOfResources
                &&& count_free(old(allocator)@) < 2
                &&& *final(map) == *old(map)
                &&& final(allocator)@ == old(allocator)@
            },
        },
{
    let ghost old_alloc = allocator@;
    let parent = map.get_current_process();
    let directory = match fork_page_directory(allocator, parent.get_page_directory()) {
        Ok(d) => d,
        Err(e) => {
            return Err(e);
        },
    };
    let stack_frame = match allocator.allocate() {
        Ok(f) => f,
        Err(_) => {
            allocator.free(directory.frame);
            proof {
                assert(allocator@ =~= old_alloc);
            }
            return Err(SystemError::OutOfResources);
        },
    };
    let next_id = ProcessID::new(map.next_pid);
    let child = parent.fork(next_id, directory, stack_frame);
    proof {
        let w = choose|i: int|
            0 <= i < map@.len() && (#[trigger] map@[i]).pid.value == map.current.value;
        assert(child.page_directory.user_tables_wf());
        assert(child.page_directory.user_mappings_within(child.memory_regions@));
    }
    map.processes.push(child);
    map.next_pid = map.next_pid + 1;
    proof {
        let s = map.processes@;
        assert forall|i: int, j: int| 0 <= i < j < s.len() implies s[i].pid.value
            < s[j].pid.value by {
            if j == s.len() - 1 {
                assert(s[i] == old(map)@[i]);
                assert(old(map)@[i].pid.value < old(map).next_pid);
            }
        }
        let w = choose|i: int|
            0 <= i < old(map)@.len() && (#[trigger] old(map)@[i]).pid.value
                == old(map).current.value;
        assert(map@[w].pid.value == map.current.value);
    }
    Ok(next_id)
}

/// Fork the current process into a kernel-mode task that begins at `dest`:
/// the entry address is pushed onto the child's empty kernel stack, so the
/// first switch into the child returns straight into it.
pub fn kfork(map: &mut ProcessMap, allocator: &mut FrameAllocator, dest: u32) -> (r: Result<
    ProcessID,
    SystemError,
>)
    requires
        old(map).wf(),
        old(allocator).wf(),
        old(map).next_pid < 0xffff_ffffu32,
    ensures
        final(map).wf(),
        final(allocator).wf(),
        final(allocator)@.len() == old(allocator)@.len(),
        final(allocator).spec_reserved() == old(allocator).spec_reserved(),
        match r {
            Ok(id) => {
                let child = final(map)@[old(map)@.len() as int];
                &&& id.value == old(map).next_pid
                &&& final(map).next_pid == old(map).next_pid + 1
                &&& final(map).current == old(map).current
                &&& final(map)@.len() == old(map)@.len() + 1
                &&& forall|i: int| 0 <= i < old(map)@.len() ==> final(map)@[i] == old(map)@[i]
                &&& child.pid == id
                &&& child.parent == old(map).current
                &&& child.run_state == RunState::Running
                &&& child.kernel_esp == crate::paging::STACK_START + 0x1000 - 8
                &&& child.kernel_stack@[child.spec_esp_index()] == dest
                &&& child.page_directory.user_tables@.len() == 0
                &&& child.page_directory.user_tables_wf()
                &&& child.page_directory.user_mappings_within(child.memory_regions@)
                &&& count_free(final(allocator)@) + 2 == count_free(old(allocator)@)
            },
            Err(e) => {
                &&& e == SystemError::OutOfResources
                &&& count_free(old(allocator)@) < 2
                &&& *final(map) == *old(map)
                &&& final(allocator)@ == old(allocator)@
            },
        },
{
    let child_id = match fork(map, allocator, 0) {
        Ok(id) => id,
        Err(e) => {
            return Err(e);
        },
    };
    let child_index: usize = map.processes.len() - 1;
    let child = process_mut(&mut map.processes, child_index);
    child.stack_push_u32(dest);
    proof {
        let s = map.processes@;
        assert forall|i: int, j: int| 0 <= i < j < s.len() implies s[i].pid.value
            < s[j].pid.value by {}
        let w = choose|i: int|
            0 <= i < old(map)@.len() && (#[trigger] old(map)@[i]).pid.value
                == old(map).current.value;
        assert(map@[w].pid.value == map.current.value);
    }
    Ok(child_id)
}

/// Mark the current process exited with `code`; it stays in the task map,
/// unschedulable, until its parent reaps it. The caller yields afterwards
/// and never runs this process again.
pub fn exit_current(map: &mut ProcessMap, code: u32)
    requires
        old(map).wf(),
    ensures
        final(map).wf(),
        final(map).current == old(map).current,
        final(map).next_pid == old(map).next_pid,
        final(map)@ == old(map)@.update(
            old(map).spec_index_of(old(map).current.value),
            ProcessState {
                run_state: RunState::Exited(code),
                ..old(map)@[old(map).spec_index_of(old(map).current.value)]
            },
        ),
{
    let index = match map.index_of(map.current.as_u32()) {
        Some(i) => i,
        None => {
            proof {
                assert(false);
            }
            0
        },
    };
    let p = process_mut(&mut map.processes, index);
    p.exit(code);
    proof {
        lemma_point_update_keeps_wf(old(map)@, map.processes@, index as int);
        let w = choose|i: int|
            0 <= i < old(map)@.len() && (#[trigger] old(map)@[i]).pid.value
                == old(map).current.value;
        assert(map@[w].pid.value == map.current.value);
    }
}

/// Put the current process to sleep for `ms` milliseconds; the caller
/// yields afterwards.
pub fn sleep_current(map: &mut ProcessMap, ms: usize)
    requires
        old(map).wf(),
    ensures
        final(map).wf(),
        final(map).current == old(map).current,
        final(map).next_pid == old(map).next_pid,
        final(map)@ == old(map)@.update(
            old(map).spec_index_of(old(map).current.value),
            ProcessState {
                run_state: RunState::Sleeping(ms),
                ..old(map)@[old(map).spec_index_of(old(map).current.value)]
            },
        ),
{
    let index = match map.index_of(map.current.as_u32()) {
        Some(i) => i,
        None => {
            proof {
                assert(false);
            }
            0
        },
    };
    let p = process_mut(&mut map.processes, index);
    p.sleep(ms);
    proof {
        lemma_point_update_keeps_wf(old(map)@, map.processes@, index as int);
        let w = choose|i: int|
            0 <= i < old(map)@.len() && (#[trigger] old(map)@[i]).pid.value
                == old(map).current.value;
        assert(map@[w].pid.value == map.current.value);
    }
}

/// A point update that changes neither a process's id nor its
/// well-formedness keeps the whole map sorted and well-formed.
pub proof fn lemma_point_update_keeps_wf(before: Seq<ProcessState>, after: Seq<ProcessState>, k: int)
    requires
        0 <= k < before.len(),
        after.len() == before.len(),
        forall|i: int| 0 <= i < before.len() && i != k ==> after[i] == before[i],
        after[k].pid == before[k].pid,
        after[k].wf(),
        pids_sorted(before),
        forall|i: int| 0 <= i < before.len() ==> (#[trigger] before[i]).wf(),
    ensures
        pids_sorted(after),
        forall|i: int| 0 <= i < after.len() ==> (#[trigger] after[i]).wf(),
{
    assert forall|i: int, j: int| 0 <= i < j < after.len() implies after[i].pid.value
        < after[j].pid.value by {
        assert(before[i].pid.value < before[j].pid.value);
    }
    assert forall|i: int| 0 <= i < after.len() implies (#[trigger] after[i]).wf() by {
        if i != k {
            assert(after[i] == before[i]);
        }
    }
}

/// What waiting on a process answers: `NotFound` unless the target is a
/// live child of the current process, `Pending` while the child runs, and
/// the reap with its exit code once the child has exited.
pub open spec fn spec_wait_pid_result(map: ProcessMap, id: u32) -> WaitPidOutcome {
    if id == map.current.value {
        WaitPidOutcome::NotFound
    } else if !contains_pid(map@, id) {
        WaitPidOutcome::NotFound
    } else {
        let target = map@[map.spec_index_of(id)];
        if target.parent.value != map.current.value {
            WaitPidOutcome::NotFound
        } else {
            match target.run_state {
                RunState::Exited(code) => WaitPidOutcome::Reaped(ProcessID { value: id }, code),
                _ => WaitPidOutcome::Pending,
            }
        }
    }
}

/// Wait for a child to exit. A target that is not a live child of the
/// current process is `NotFound`; a child that has not exited yet is
/// `Pending`, and the caller yields and retries. An exited child is reaped:
/// it leaves the task map and its directory and kernel-stack frames return
/// to the frame allocator.
pub fn wait_pid(map: &mut ProcessMap, allocator: &mut FrameAllocator, id: u32) -> (r:
    WaitPidOutcome)
    requires
        old(map).wf(),
        old(allocator).wf(),
    ensures
        final(map).wf(),
        final(allocator).wf(),
        final(allocator)@.len() == old(allocator)@.len(),
        final(allocator).spec_reserved() == old(allocator).spec_reserved(),
        r == spec_wait_pid_result(*old(map), id),
        match r {
            WaitPidOutcome::NotFound => {
                &&& !is_child_of(old(map)@, id, old(map).current.value)
                &&& *final(map) == *old(map)
                &&& final(allocator)@ == old(allocator)@
            },
            WaitPidOutcome::Pending => {
                &&& is_child_of(old(map)@, id, old(map).current.value)
                &&& !(old(map)@[old(map).spec_index_of(id)].run_state is Exited)
                &&& *final(map) == *old(map)
                &&& final(allocator)@ == old(allocator)@
            },
            WaitPidOutcome::Reaped(pid, code) => {
                let k = old(map).spec_index_of(id);
                let child = old(map)@[k];
                &&& is_child_of(old(map)@, id, old(map).current.value)
                &&& pid.value == id
                &&& child.run_state == RunState::Exited(code)
                &&& final(map)@ == old(map)@.remove(k)
                &&& final(map).current == old(map).current
                &&& final(map).next_pid == old(map).next_pid
            },
        },
{
    let current_id: u32 = map.current.as_u32();
    if id == current_id {
        return WaitPidOutcome::NotFound;
    }
    let index = match map.index_of(id) {
        Some(i) => i,
        None => {
            proof {
                assert forall|i: int|
                    0 <= i < map@.len() && (#[trigger] map@[i]).pid.value == id implies false by {}
            }
            return WaitPidOutcome::NotFound;
        },
    };
    if map.processes[index].parent.value != current_id {
        proof {
            assert forall|i: int|
                0 <= i < map@.len() && (#[trigger] map@[i]).pid.value == id
                    && map@[i].parent.value == current_id implies false by {
                map.lemma_id_unique(i, index as int);
            }
        }
        return WaitPidOutcome::NotFound;
    }
    let code: u32 = match map.processes[index].run_state {
        RunState::Exited(code) => code,
        _ => {
            proof {
                assert(map@[index as int].pid.value == id && map@[index as int].parent.value
                    == current_id);
            }
            return WaitPidOutcome::Pending;
        },
    };
    proof {
        assert(map@[index as int].pid.value == id && map@[index as int].parent.value == current_id);
    }
    let child = map.processes.remove(index);
    // The child's private frames go back to the pool; its handle table and
    // regions are dropped with it.
    allocator.release(child.page_directory.frame);
    match child.stack_frame {
        Some(f) => allocator.release(f),
        None => (),
    }
    proof {
        let s = map.processes@;
        assert forall|i: int, j: int| 0 <= i < j < s.len() implies s[i].pid.value
            < s[j].pid.value by {
            if j < index {
                assert(s[i] == old(map)@[i] && s[j] == old(map)@[j]);
            } else if i < index {
                assert(s[i] == old(map)@[i] && s[j] == old(map)@[j + 1]);
            } else {
                assert(s[i] == old(map)@[i + 1] && s[j] == old(map)@[j + 1]);
            }
        }
        assert forall|i: int| 0 <= i < s.len() implies (#[trigger] s[i]).wf() && s[i].pid.value
            < map.next_pid by {
            if i < index {
                assert(s[i] == old(map)@[i]);
            } else {
                assert(s[i] == old(map)@[i + 1]);
            }
        }
        let w = choose|i: int|
            0 <= i < old(map)@.len() && (#[trigger] old(map)@[i]).pid.value == current_id;
        if w < index {
            assert(s[w] == old(map)@[w]);
        } else {
            assert(s[w - 1] == old(map)@[w]);
        }
    }
    WaitPidOutcome::Reaped(ProcessID::new(id), code)
}

/// Jump to a process and force it to enter user mode: the chosen process
/// becomes current, and the interrupt return at the tail of the switch pops
/// the five-word frame that `set_initial_entry_point` prepared from its
/// kernel stack.
pub fn usermode_enter(map: &mut ProcessMap, id: &ProcessID)
    requires
        old(map).wf(),
        contains_pid(old(map)@, id.value),
        old(map)@[old(map).spec_index_of(id.value)].kernel_esp + 20 <= crate::paging::STACK_START
            + 0x1000 - 4,
    ensures
        final(map).wf(),
        final(map).current == *id,
        final(map).next_pid == old(map).next_pid,
        final(map)@ == old(map)@.update(
            old(map).spec_index_of(id.value),
            ProcessState {
                kernel_esp: (old(map)@[old(map).spec_index_of(id.value)].kernel_esp + 20) as usize,
                ..old(map)@[old(map).spec_index_of(id.value)]
            },
        ),
{
    let index = match map.index_of(id.as_u32()) {
        Some(i) => i,
        None => {
            proof {
                assert(false);
            }
            0
        },
    };
    let p = process_mut(&mut map.processes, index);
    // The interrupt return pops eip, cs, eflags, esp and ss: five words.
    p.kernel_esp = p.kernel_esp + 20;
    proof {
        lemma_point_update_keeps_wf(old(map)@, map.processes@, index as int);
    }
    map.current = *id;
    proof {
        assert(map@[index as int].pid.value == id.value);
    }
}


} // verus!
