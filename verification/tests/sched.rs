//! The task map and the cooperative scheduler: pick order, fork, sleep,
//! waiting and reaping.

use kernel_core::{
    boot_kernel, find_next_running_process, fork, get_current_id, kfork, switch_to,
    update_timeouts, wait_pid, yield_coop, InitFileSystem, Kernel, KernelDataBounds, ProcessID,
    RunState, SystemError, WaitPidOutcome,
};

fn boot() -> Kernel {
    let bounds = KernelDataBounds { ro_start: 0x10_0000, rw_end: 0x20_0000, stack_start: 0x9_f000 };
    boot_kernel(0x100_0000, 0x10_0000, 0xc040_0000, &bounds, InitFileSystem::new(Vec::new()))
        .unwrap()
}

#[test]
fn boot_installs_the_idle_task() {
    let k = boot();
    assert_eq!(k.processes.processes.len(), 1);
    assert_eq!(get_current_id(&k.processes).as_u32(), 0);
    assert_eq!(k.processes.processes[0].get_id().as_u32(), 0);
    assert!(k.processes.processes[0].is_running());
}

#[test]
fn fork_creates_a_runnable_child_of_the_caller() {
    let mut k = boot();
    let child = fork(&mut k.processes, &mut k.allocator, 0).unwrap();
    assert_eq!(child.as_u32(), 1);
    assert_eq!(k.processes.processes.len(), 2);
    let c = &k.processes.processes[1];
    assert_eq!(c.pid.as_u32(), 1);
    assert_eq!(c.parent.as_u32(), 0);
    assert!(c.is_running());
    assert_eq!(c.open_files.count(), 0);
}

#[test]
fn fork_shares_the_kernel_window() {
    let mut k = boot();
    fork(&mut k.processes, &mut k.allocator, 0).unwrap();
    let parent = &k.processes.processes[0].page_directory;
    let child = &k.processes.processes[1].page_directory;
    for slot in 0x300..0x3ff {
        let p = parent.table.get(slot);
        let c = child.table.get(slot);
        assert_eq!(p.is_present(), c.is_present());
        if p.is_present() {
            assert_eq!(p.get_address(), c.get_address());
        }
    }
    // The self-map points each directory at itself.
    assert_eq!(child.table.get(0x3ff).get_address(), child.get_address());
    assert_ne!(child.get_address(), parent.get_address());
}

#[test]
fn fork_consumes_two_frames_and_reaping_returns_them() {
    let mut k = boot();
    let before = k.allocator.count_free_frames();
    let child = fork(&mut k.processes, &mut k.allocator, 0).unwrap();
    assert_eq!(k.allocator.count_free_frames(), before - 2);
    // The child exits and the parent reaps it.
    switch_to(&mut k.processes, &child);
    kernel_core::exit_current(&mut k.processes, 7);
    switch_to(&mut k.processes, &ProcessID::new(0));
    match wait_pid(&mut k.processes, &mut k.allocator, child.as_u32()) {
        WaitPidOutcome::Reaped(pid, code) => {
            assert_eq!(pid.as_u32(), child.as_u32());
            assert_eq!(code, 7);
        },
        other => panic!("expected a reap, got {:?}", other),
    }
    assert_eq!(k.allocator.count_free_frames(), before);
    assert_eq!(k.processes.processes.len(), 1);
}

#[test]
fn find_next_picks_the_first_id_after_current() {
    let mut k = boot();
    fork(&mut k.processes, &mut k.allocator, 0).unwrap();
    fork(&mut k.processes, &mut k.allocator, 0).unwrap();
    // Tasks 0 (current), 1 and 2 are runnable.
    let next = find_next_running_process(&k.processes).unwrap();
    assert_eq!(next.as_u32(), 1);
    switch_to(&mut k.processes, &next);
    let next = find_next_running_process(&k.processes).unwrap();
    assert_eq!(next.as_u32(), 2);
}

#[test]
fn find_next_wraps_to_the_smallest_runnable_id() {
    let mut k = boot();
    fork(&mut k.processes, &mut k.allocator, 0).unwrap();
    fork(&mut k.processes, &mut k.allocator, 0).unwrap();
    switch_to(&mut k.processes, &ProcessID::new(2));
    let next = find_next_running_process(&k.processes).unwrap();
    assert_eq!(next.as_u32(), 0);
}

#[test]
fn yield_without_another_runnable_stays_put() {
    let mut k = boot();
    assert!(find_next_running_process(&k.processes).is_none());
    yield_coop(&mut k.processes);
    assert_eq!(get_current_id(&k.processes).as_u32(), 0);
}

#[test]
fn sleeping_process_is_skipped_until_awake() {
    let mut k = boot();
    let child = fork(&mut k.processes, &mut k.allocator, 0).unwrap();
    switch_to(&mut k.processes, &child);
    kernel_core::sleep_current(&mut k.processes, 100);
    yield_coop(&mut k.processes);
    assert_eq!(get_current_id(&k.processes).as_u32(), 0);
    assert!(find_next_running_process(&k.processes).is_none());
    update_timeouts(&mut k.processes, 100);
    assert_eq!(find_next_running_process(&k.processes).unwrap().as_u32(), 1);
}

#[test]
fn ticks_decrement_sleep_until_it_expires() {
    let mut k = boot();
    kernel_core::sleep_current(&mut k.processes, 1000);
    assert_eq!(k.processes.processes[0].run_state, RunState::Sleeping(1000));
    update_timeouts(&mut k.processes, 400);
    assert_eq!(k.processes.processes[0].run_state, RunState::Sleeping(600));
    update_timeouts(&mut k.processes, 400);
    assert_eq!(k.processes.processes[0].run_state, RunState::Sleeping(200));
    update_timeouts(&mut k.processes, 400);
    assert_eq!(k.processes.processes[0].run_state, RunState::Running);
    // Further ticks leave a running process alone.
    update_timeouts(&mut k.processes, 400);
    assert_eq!(k.processes.processes[0].run_state, RunState::Running);
}

#[test]
fn wait_pid_on_a_non_child_returns_not_found() {
    let mut k = boot();
    // A process that does not exist.
    assert_eq!(
        wait_pid(&mut k.processes, &mut k.allocator, 42),
        WaitPidOutcome::NotFound
    );
    // A grandchild is not a child of the idle task's caller.
    let child = fork(&mut k.processes, &mut k.allocator, 0).unwrap();
    switch_to(&mut k.processes, &child);
    let grandchild = fork(&mut k.processes, &mut k.allocator, 0).unwrap();
    switch_to(&mut k.processes, &ProcessID::new(0));
    assert_eq!(
        wait_pid(&mut k.processes, &mut k.allocator, grandchild.as_u32()),
        WaitPidOutcome::NotFound
    );
    // Waiting on yourself finds nothing either.
    assert_eq!(
        wait_pid(&mut k.processes, &mut k.allocator, 0),
        WaitPidOutcome::NotFound
    );
}

#[test]
fn wait_pid_on_a_live_child_is_pending() {
    let mut k = boot();
    let child = fork(&mut k.processes, &mut k.allocator, 0).unwrap();
    assert_eq!(
        wait_pid(&mut k.processes, &mut k.allocator, child.as_u32()),
        WaitPidOutcome::Pending
    );
    // The child is still there.
    assert_eq!(k.processes.processes.len(), 2);
}

#[test]
fn kfork_pushes_the_entry_point() {
    let mut k = boot();
    let child = kfork(&mut k.processes, &mut k.allocator, 0xc010_2030).unwrap();
    let c = &k.processes.processes[1];
    assert_eq!(c.pid.as_u32(), child.as_u32());
    // The entry address sits on top of the child's kernel stack.
    let esp = c.get_kernel_stack_pointer();
    let index = (esp - kernel_core::STACK_START as usize) / 4;
    assert_eq!(c.kernel_stack[index], 0xc010_2030);
}

#[test]
fn usermode_enter_pops_the_interrupt_frame() {
    let mut k = boot();
    let child = fork(&mut k.processes, &mut k.allocator, 0).unwrap();
    // Prepare the five-word frame on the child's stack.
    let idx = k.processes.index_of(child.as_u32()).unwrap();
    let esp_before;
    {
        let c = &mut k.processes.processes[idx];
        c.set_initial_entry_point(0x40_0000, 0xbfff_fffc);
        esp_before = c.get_kernel_stack_pointer();
        let base = (esp_before - kernel_core::STACK_START as usize) / 4;
        assert_eq!(c.kernel_stack[base], 0x40_0000); // eip
        assert_eq!(c.kernel_stack[base + 1], 0x1b); // cs
        assert_eq!(c.kernel_stack[base + 2], 0x200); // eflags
        assert_eq!(c.kernel_stack[base + 3], 0xbfff_fffc); // esp
        assert_eq!(c.kernel_stack[base + 4], 0x23); // ss
    }
    kernel_core::usermode_enter(&mut k.processes, &child);
    assert_eq!(get_current_id(&k.processes).as_u32(), child.as_u32());
    let c = &k.processes.processes[idx];
    assert_eq!(c.get_kernel_stack_pointer(), esp_before + 20);
}

#[test]
fn fork_fails_cleanly_without_frames() {
    // Two free frames only: enough for boot's directory and window tables
    // is already spent, so build a tiny allocator directly.
    let mut k = boot();
    // Drain the allocator.
    while k.allocator.count_free_frames() > 1 {
        k.allocator.allocate().unwrap();
    }
    let before_free = k.allocator.count_free_frames();
    let before_len = k.processes.processes.len();
    let r = fork(&mut k.processes, &mut k.allocator, 0);
    assert_eq!(r, Err(SystemError::OutOfResources));
    assert_eq!(k.allocator.count_free_frames(), before_free);
    assert_eq!(k.processes.processes.len(), before_len);
}

#[test]
fn boot_fails_only_for_want_of_frames() {
    let bounds = KernelDataBounds { ro_start: 0x1000, rw_end: 0x2000, stack_start: 0x9_f000 };
    // Two free frames past the reserved megabyte: too few for the
    // directory, the window table and the stack table.
    let r = boot_kernel(0x10_2000, 0x10_0000, 0xc040_0000, &bounds, InitFileSystem::new(Vec::new()));
    assert!(matches!(r, Err(SystemError::OutOfResources)));
    // One frame more and boot succeeds.
    let r = boot_kernel(0x10_3000, 0x10_0000, 0xc040_0000, &bounds, InitFileSystem::new(Vec::new()));
    assert!(r.is_ok());
}
