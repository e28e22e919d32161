//! Per-process virtual memory regions.
//!
//! A process owns an ordered, non-overlapping set of virtual ranges. The
//! regions decide which user pointers a system call may dereference, and the
//! page-fault path asks them which range a faulting address belongs to.

use vstd::prelude::*;

verus! {

/// Which way an anonymous region may grow: `After` for heaps, `Before` for
/// stacks.
#[derive(Clone, Copy, Debug, PartialEq, Eq, Structural)]
pub enum ExpansionDirection {
    Before,
    After,
}

/// What backs a region.
#[derive(Clone, Copy, Debug, PartialEq, Eq, Structural)]
pub enum MemoryRegionType {
    Anonymous(ExpansionDirection),
    DirectMapped,
    Executable,
}

/// Access policy of a region. Copy-on-write ranges behave as writable from
/// the point of view of user-pointer checks; the fault path performs the
/// copy.
#[derive(Clone, Copy, Debug, PartialEq, Eq, Structural)]
pub enum Permissions {
    ReadOnly,
    ReadWrite,
    CopyOnWrite,
}

/// One contiguous range of virtual addresses owned by a process.
#[derive(Clone, Copy, Debug, PartialEq, Eq, Structural)]
pub struct VirtualMemoryRegion {
    pub start: u32,
    pub size: u32,
    pub kind: MemoryRegionType,
    pub perms: Permissions,
}

impl VirtualMemoryRegion {
    /// The range does not wrap around the end of the address space and is
    /// not empty.
    pub open spec fn wf(self) -> bool {
        &&& self.size > 0
        &&& self.start + self.size <= 0x1_0000_0000
    }

    /// First address past the region.
    pub open spec fn spec_end(self) -> int {
        self.start + self.size
    }

    /// Whether `addr` lies inside the region.
    pub open spec fn spec_contains(self, addr: int) -> bool {
        self.start <= addr < self.spec_end()
    }

    /// Whether user code may write through addresses of this region.
    pub open spec fn spec_writable(self) -> bool {
        self.perms == Permissions::ReadWrite || self.perms == Permissions::CopyOnWrite
    }

    pub fn new(start: u32, size: u32, kind: MemoryRegionType, perms: Permissions) -> (r:
        VirtualMemoryRegion)
        requires
            size > 0,
            start + size <= 0x1_0000_0000,
        ensures
            r == (VirtualMemoryRegion { start, size, kind, perms }),
            r.wf(),
    {
        VirtualMemoryRegion { start, size, kind, perms }
    }

    /// Whether `addr` lies inside the region.
    pub fn contains(&self, addr: u32) -> (r: bool)
        ensures
            r == self.spec_contains(addr as int),
    {
        self.start <= addr && (addr - self.start) < self.size
    }
}

/// Some region holds the address `a`, writable when `write` is set.
pub open spec fn addr_covered(regions: Seq<VirtualMemoryRegion>, a: int, write: bool) -> bool {
    exists|i: int|
        0 <= i < regions.len() && (#[trigger] regions[i]).spec_contains(a) && (write
            ==> regions[i].spec_writable())
}

/// Every byte of `[addr, addr + len)` lies in some region, and for a write
/// that region must be writable.
pub open spec fn range_covered(regions: Seq<VirtualMemoryRegion>, addr: int, len: int, write: bool) -> bool {
    forall|a: int| addr <= a < addr + len ==> #[trigger] addr_covered(regions, a, write)
}

/// The ordered set of regions of one process.
pub struct MemoryRegions {
    pub regions: Vec<VirtualMemoryRegion>,
}

impl MemoryRegions {
    pub open spec fn view(self) -> Seq<VirtualMemoryRegion> {
        self.regions@
    }

    /// Regions are well-formed, sorted by start, and pairwise disjoint.
    pub open spec fn wf(self) -> bool {
        &&& forall|i: int| 0 <= i < self.regions@.len() ==> (#[trigger] self.regions@[i]).wf()
        &&& forall|i: int, j: int|
            0 <= i < j < self.regions@.len() ==> self.regions@[i].spec_end()
                <= self.regions@[j].start
    }

    /// No address belongs to two distinct regions.
    pub proof fn lemma_disjoint(self, i: int, j: int, a: int)
        requires
            self.wf(),
            0 <= i < self@.len(),
            0 <= j < self@.len(),
            self@[i].spec_contains(a),
            self@[j].spec_contains(a),
        ensures
            i == j,
    {
    }

    /// A process with no regions yet.
    pub fn empty() -> (r: MemoryRegions)
        ensures
            r.wf(),
            r@.len() == 0,
    {
        MemoryRegions { regions: Vec::new() }
    }

    /// Append a region lying entirely after every existing one.
    pub fn push_region(&mut self, region: VirtualMemoryRegion)
        requires
            old(self).wf(),
            region.wf(),
            forall|i: int|
                0 <= i < old(self)@.len() ==> (#[trigger] old(self)@[i]).spec_end()
                    <= region.start,
        ensures
            final(self).wf(),
            final(self)@ == old(self)@.push(region),
    {
        self.regions.push(region);
    }

    /// The regions every hand-constructed process starts with: the user
    /// stack just below the kernel window, the heap, and the kernel-stack
    /// page.
    pub open spec fn spec_initial(heap_start: u32) -> Seq<VirtualMemoryRegion> {
        seq![
            VirtualMemoryRegion {
                start: 0xbfff_e000u32,
                size: 0x2000u32,
                kind: MemoryRegionType::Anonymous(ExpansionDirection::Before),
                perms: Permissions::CopyOnWrite,
            },
            VirtualMemoryRegion {
                start: heap_start,
                size: 0x10_0000u32,
                kind: MemoryRegionType::Anonymous(ExpansionDirection::After),
                perms: Permissions::ReadWrite,
            },
            VirtualMemoryRegion {
                start: 0xffbf_e000u32,
                size: 0x1000u32,
                kind: MemoryRegionType::Anonymous(ExpansionDirection::Before),
                perms: Permissions::ReadOnly,
            },
        ]
    }

    /// Build the initial region set of a hand-constructed process.
    pub fn initial(heap_start: u32) -> (r: MemoryRegions)
        requires
            0xc000_0000 <= heap_start,
            heap_start + 0x10_0000 <= 0xffbf_e000,
        ensures
            r.wf(),
            r@ == MemoryRegions::spec_initial(heap_start),
    {
        let mut regions: Vec<VirtualMemoryRegion> = Vec::new();
        regions.push(
            VirtualMemoryRegion {
                start: 0xbfff_e000,
                size: 0x2000,
                kind: MemoryRegionType::Anonymous(ExpansionDirection::Before),
                perms: Permissions::CopyOnWrite,
            },
        );
        regions.push(
            VirtualMemoryRegion {
                start: heap_start,
                size: 0x10_0000,
                kind: MemoryRegionType::Anonymous(ExpansionDirection::After),
                perms: Permissions::ReadWrite,
            },
        );
        regions.push(
            VirtualMemoryRegion {
                start: 0xffbf_e000,
                size: 0x1000,
                kind: MemoryRegionType::Anonymous(ExpansionDirection::Before),
                perms: Permissions::ReadOnly,
            },
        );
        let result = MemoryRegions { regions };
        proof {
            assert(result@ =~= MemoryRegions::spec_initial(heap_start));
        }
        result
    }

    /// A deep copy handed to a forked child; sharing policy over the frames
    /// beneath is left to the page-table layer.
    pub fn fork(&self) -> (r: MemoryRegions)
        ensures
            r@ == self@,
    {
        MemoryRegions { regions: self.regions.clone() }
    }

    /// The region containing `addr`, if any.
    pub fn get_range_containing_address(&self, addr: u32) -> (r: Option<VirtualMemoryRegion>)
        ensures
            match r {
                Some(region) => region.spec_contains(addr as int) && exists|i: int|
                    0 <= i < self@.len() && #[trigger] self@[i] == region,
                None => forall|i: int|
                    0 <= i < self@.len() ==> !(#[trigger] self@[i]).spec_contains(addr as int),
            },
    {
        let len: usize = self.regions.len();
        let mut i: usize = 0;
        while i < len
            invariant
                i <= len,
                len == self.regions@.len(),
                forall|j: int|
                    0 <= j < i ==> !(#[trigger] self.regions@[j]).spec_contains(addr as int),
            decreases len - i,
        {
            let region: VirtualMemoryRegion = self.regions[i];
            if region.contains(addr) {
                proof {
                    assert(self@[i as int] == region);
                }
                return Some(region);
            }
            i += 1;
        }
        None
    }

    /// Check a user pointer: every byte of `[addr, addr + len)` must lie in a
    /// region of this process, writable when `write` is set. This is the
    /// guard every system call runs before touching user memory.
    pub fn check_user_range(&self, addr: u32, len: u32, write: bool) -> (r: bool)
        requires
            self.wf(),
        ensures
            r == range_covered(self@, addr as int, len as int, write),
    {
        let end: u64 = addr as u64 + len as u64;
        if len > 0 && end > 0x1_0000_0000 {
            proof {
                let a: int = 0x1_0000_0000;
                assert(addr <= a < addr + len);
                assert(!addr_covered(self@, a, write)) by {
                    assert forall|i: int|
                        0 <= i < self@.len() implies !(#[trigger] self@[i]).spec_contains(a) by {
                        assert(self@[i].wf());
                    }
                }
            }
            return false;
        }
        let mut cur: u64 = addr as u64;
        while cur < end
            invariant
                self.wf(),
                addr <= cur <= end,
                end == addr as int + len as int,
                end <= 0x1_0000_0000,
                forall|a: int| addr <= a < cur ==> #[trigger] addr_covered(self@, a, write),
            decreases end - cur,
        {
            match self.get_range_containing_address(cur as u32) {
                Some(region) => {
                    proof {
                        assert(region.spec_contains(cur as int));
                        assert(region.wf()) by {
                            let ri = choose|i: int|
                                0 <= i < self@.len() && #[trigger] self@[i] == region;
                            assert(self@[ri].wf());
                        }
                    }
                    if write && !(matches!(region.perms, Permissions::ReadWrite) || matches!(
                        region.perms,
                        Permissions::CopyOnWrite,
                    )) {
                        proof {
                            let a: int = cur as int;
                            assert(!addr_covered(self@, a, write)) by {
                                let ri = choose|i: int|
                                    0 <= i < self@.len() && #[trigger] self@[i] == region;
                                assert forall|i: int|
                                    0 <= i < self@.len() && (#[trigger] self@[i]).spec_contains(a)
                                        implies !(write ==> self@[i].spec_writable()) by {
                                    self.lemma_disjoint(i, ri, a);
                                }
                            }
                            assert(addr <= a < addr + len);
                        }
                        return false;
                    }
                    let hop: u64 = region.start as u64 + region.size as u64;
                    proof {
                        let ri = choose|i: int| 0 <= i < self@.len() && #[trigger] self@[i] == region;
                        assert forall|a: int| addr <= a < hop && a < end implies #[trigger] addr_covered(
                            self@,
                            a,
                            write,
                        ) by {
                            if cur <= a {
                                assert(self@[ri].spec_contains(a));
                            }
                        }
                    }
                    cur = if hop < end {
                        hop
                    } else {
                        end
                    };
                },
                None => {
                    proof {
                        let a: int = cur as int;
                        assert(!addr_covered(self@, a, write));
                        assert(addr <= a < addr + len);
                    }
                    return false;
                },
            }
        }
        true
    }
}

} // verus!
