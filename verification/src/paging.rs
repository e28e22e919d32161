//! Page directories and page tables.
//!
//! Hardware-defined 1024-entry tables of 32-bit entries. Each process owns
//! one directory. Entries 0x300..=0x3fe are the shared kernel window,
//! identical across all directories; entry 0x3fe hosts the kernel-stack page
//! table; entry 0x3ff points back at the directory itself, so the directory
//! can be edited through the virtual address it maps. A directory or table
//! that is not the active one is edited by mapping its frame into a single
//! reserved temporary page inside the kernel window.

use vstd::prelude::*;

use crate::error::SystemError;
use crate::frames::{count_free, Frame, FrameAllocator};
use crate::regions::{addr_covered, range_covered, MemoryRegions, VirtualMemoryRegion};

verus! {

/// Entries per page table or page directory.
pub const PAGE_TABLE_ENTRIES: usize = 1024;

/// First page-directory slot of the shared kernel window.
pub const KERNEL_WINDOW_FIRST_SLOT: usize = 0x300;

/// Page-directory slot hosting the kernel-stack page table.
pub const KERNEL_STACK_SLOT: usize = 0x3fe;

/// Page-directory slot that maps the directory onto itself.
pub const SELF_MAP_SLOT: usize = 0x3ff;

/// First virtual address of the kernel window.
pub const KERNEL_WINDOW_BASE: u32 = 0xc000_0000;

/// Virtual address of the page backing the current kernel stack.
pub const STACK_START: u32 = 0xffbf_e000;

/// Virtual address of the reserved temporary page used to edit foreign
/// directories and tables.
pub const TEMPORARY_PAGE_ADDRESS: u32 = 0xffbf_f000;

/// One 32-bit translation entry: present, writable and user-access bits and
/// a frame-aligned physical address.
#[derive(Clone, Copy, Debug, PartialEq, Eq, Structural)]
pub struct PageEntry {
    pub present: bool,
    pub writable: bool,
    pub user: bool,
    pub address: u32,
}

impl PageEntry {
    /// A cleared entry: nothing mapped.
    pub fn empty() -> (e: PageEntry)
        ensures
            e == (PageEntry { present: false, writable: false, user: false, address: 0u32 }),
    {
        PageEntry { present: false, writable: false, user: false, address: 0 }
    }

    pub fn is_present(&self) -> (r: bool)
        ensures
            r == self.present,
    {
        self.present
    }

    pub fn get_address(&self) -> (a: u32)
        ensures
            a == self.address,
    {
        self.address
    }

    pub fn set_address(&mut self, address: u32)
        ensures
            *final(self) == (PageEntry { address, ..*old(self) }),
    {
        self.address = address;
    }

    pub fn set_present(&mut self)
        ensures
            *final(self) == (PageEntry { present: true, ..*old(self) }),
    {
        self.present = true;
    }

    pub fn set_writable(&mut self)
        ensures
            *final(self) == (PageEntry { writable: true, ..*old(self) }),
    {
        self.writable = true;
    }

    pub fn set_user_access(&mut self)
        ensures
            *final(self) == (PageEntry { user: true, ..*old(self) }),
    {
        self.user = true;
    }
}

/// The contents of one hardware translation table: exactly 1024 entries.
pub struct PageTable {
    pub entries: Vec<PageEntry>,
}

impl PageTable {
    pub open spec fn view(self) -> Seq<PageEntry> {
        self.entries@
    }

    pub open spec fn wf(self) -> bool {
        self.entries@.len() == 1024
    }

    /// A table of 1024 cleared entries.
    pub fn zeroed() -> (t: PageTable)
        ensures
            t.wf(),
            forall|i: int| 0 <= i < 1024 ==> (#[trigger] t@[i]) == (PageEntry {
                present: false,
                writable: false,
                user: false,
                address: 0u32,
            }),
    {
        let mut entries: Vec<PageEntry> = Vec::new();
        let mut i: usize = 0;
        while i < 1024
            invariant
                i <= 1024,
                entries@.len() == i,
                forall|j: int| 0 <= j < i ==> (#[trigger] entries@[j]) == (PageEntry {
                    present: false,
                    writable: false,
                    user: false,
                    address: 0u32,
                }),
            decreases 1024 - i,
        {
            entries.push(PageEntry { present: false, writable: false, user: false, address: 0 });
            i += 1;
        }
        PageTable { entries }
    }

    /// Reset every entry.
    pub fn zero(&mut self)
        ensures
            final(self).wf(),
            forall|i: int| 0 <= i < 1024 ==> (#[trigger] final(self)@[i]) == (PageEntry {
                present: false,
                writable: false,
                user: false,
                address: 0u32,
            }),
    {
        *self = PageTable::zeroed();
    }

    pub fn get(&self, index: usize) -> (e: PageEntry)
        requires
            self.wf(),
            index < 1024,
        ensures
            e == self@[index as int],
    {
        self.entries[index]
    }

    pub fn set_entry(&mut self, index: usize, entry: PageEntry)
        requires
            old(self).wf(),
            index < 1024,
        ensures
            final(self).wf(),
            final(self)@ == old(self)@.update(index as int, entry),
    {
        self.entries.set(index, entry);
    }
}

/// The reserved temporary page: a single-slot resource through which the
/// kernel edits any directory or table frame that is not currently mapped.
/// Its user must not suspend while a frame is held in it; interrupts stay
/// off for the whole edit.
pub struct TemporaryPage {
    pub mapped: Option<Frame>,
}

impl TemporaryPage {
    pub fn new() -> (t: TemporaryPage)
        ensures
            t.mapped is None,
    {
        TemporaryPage { mapped: None }
    }

    /// The fixed virtual address the temporary page occupies.
    pub fn get_temporary_page_address(&self) -> (a: u32)
        ensures
            a == TEMPORARY_PAGE_ADDRESS,
    {
        TEMPORARY_PAGE_ADDRESS
    }

    /// Map a frame into the temporary page, displacing whatever was there.
    pub fn map_frame_to_temporary_page(&mut self, frame: Frame)
        ensures
            final(self).mapped == Some(frame),
    {
        self.mapped = Some(frame);
    }
}

/// One private page table of a process, backing user-space mappings for one
/// directory slot.
pub struct UserTable {
    pub slot: usize,
    pub frame: Frame,
    pub table: PageTable,
}

/// A process's page directory: the frame it lives in, its contents, and the
/// private page tables behind its user-space slots.
pub struct PageDirectory {
    pub frame: Frame,
    pub table: PageTable,
    pub user_tables: Vec<UserTable>,
}

impl PageDirectory {
    pub open spec fn wf(self) -> bool {
        &&& self.table.wf()
        &&& self.table@[SELF_MAP_SLOT as int].present
        &&& self.table@[SELF_MAP_SLOT as int].address == self.frame.spec_address()
    }

    /// The physical address of the directory frame, loaded into `cr3` on a
    /// context switch.
    pub fn get_address(&self) -> (a: u32)
        ensures
            a == self.frame.spec_address(),
    {
        self.frame.get_address()
    }
}

/// Two directories share the kernel window: every slot of
/// 0x300..=0x3fe is present for the same slots and maps the same physical
/// table frame.
pub open spec fn kernel_window_shared(a: PageDirectory, b: PageDirectory) -> bool {
    forall|i: int|
        0x300 <= i < 0x3ff ==> (#[trigger] a.table@[i]).present == b.table@[i].present && (
        a.table@[i].present ==> a.table@[i].address == b.table@[i].address)
}

/// Kernel-window sharing is transitive: each fork copies the window from the
/// directory it forked, so all live directories share one window.
pub proof fn lemma_kernel_window_shared_trans(a: PageDirectory, b: PageDirectory, c: PageDirectory)
    requires
        kernel_window_shared(a, b),
        kernel_window_shared(b, c),
    ensures
        kernel_window_shared(a, c),
{
}

/// Kernel-window sharing is symmetric.
pub proof fn lemma_kernel_window_shared_sym(a: PageDirectory, b: PageDirectory)
    requires
        kernel_window_shared(a, b),
    ensures
        kernel_window_shared(b, a),
{
}

/// Create a page directory for the first address space: allocates a frame,
/// zeros it, and installs the self-map in the top slot. The kernel window is
/// filled afterwards by `map_kernel`.
pub fn create_initial_pagedir(allocator: &mut FrameAllocator) -> (r: Result<
    PageDirectory,
    SystemError,
>)
    requires
        old(allocator).wf(),
    ensures
        final(allocator).wf(),
        final(allocator)@.len() == old(allocator)@.len(),
        final(allocator).spec_reserved() == old(allocator).spec_reserved(),
        match r {
            Ok(d) => {
                &&& d.wf()
                &&& !old(allocator)@[d.frame.spec_index()]
                &&& old(allocator).spec_reserved() <= d.frame.spec_index() < old(allocator)@.len()
                &&& final(allocator)@ == old(allocator)@.update(d.frame.spec_index(), true)
                &&& count_free(final(allocator)@) + 1 == count_free(old(allocator)@)
                &&& forall|i: int|
                    0 <= i < 0x3ff ==> !(#[trigger] d.table@[i]).present
                &&& d.user_tables@.len() == 0
            },
            Err(e) => {
                &&& e == SystemError::OutOfResources
                &&& final(allocator)@ == old(allocator)@
                &&& count_free(old(allocator)@) == 0
            },
        },
{
    let frame = match allocator.allocate() {
        Ok(f) => f,
        Err(e) => {
            return Err(e);
        },
    };
    let mut table = PageTable::zeroed();
    let mut self_entry = PageEntry::empty();
    self_entry.set_address(frame.get_address());
    self_entry.set_present();
    table.set_entry(SELF_MAP_SLOT, self_entry);
    Ok(PageDirectory { frame, table, user_tables: Vec::new() })
}

/// Duplicate the current directory for a forked child: a freshly allocated
/// directory frame whose kernel-window slots 0x300..=0x3fe mirror the
/// current directory's, with its own self-map on top. Private user entries
/// stay empty; region walks populate them later.
///
/// Frames are taken from the allocator; on failure nothing is allocated and
/// the caller's directory is untouched.
pub fn fork_page_directory(allocator: &mut FrameAllocator, current: &PageDirectory) -> (r: Result<
    PageDirectory,
    SystemError,
>)
    requires
        old(allocator).wf(),
        current.wf(),
    ensures
        final(allocator).wf(),
        final(allocator)@.len() == old(allocator)@.len(),
        final(allocator).spec_reserved() == old(allocator).spec_reserved(),
        match r {
            Ok(d) => {
                &&& d.wf()
                &&& kernel_window_shared(d, *current)
                &&& forall|i: int| 0 <= i < 0x300 ==> !(#[trigger] d.table@[i]).present
                &&& d.user_tables@.len() == 0
                &&& forall|i: int|
                    0x300 <= i < 0x3ff ==> !(#[trigger] d.table@[i]).user && !d.table@[i].writable
                &&& !old(allocator)@[d.frame.spec_index()]
                &&& old(allocator).spec_reserved() <= d.frame.spec_index() < old(allocator)@.len()
                &&& final(allocator)@ == old(allocator)@.update(d.frame.spec_index(), true)
                &&& count_free(final(allocator)@) + 1 == count_free(old(allocator)@)
            },
            Err(e) => {
                &&& e == SystemError::OutOfResources
                &&& final(allocator)@ == old(allocator)@
                &&& count_free(old(allocator)@) == 0
            },
        },
{
    let directory_frame = match allocator.allocate() {
        Ok(f) => f,
        Err(e) => {
            return Err(e);
        },
    };
    let mut table = PageTable::zeroed();
    // Top entry points back at the directory itself.
    let mut self_entry = PageEntry::empty();
    self_entry.set_address(directory_frame.get_address());
    self_entry.set_present();
    table.set_entry(SELF_MAP_SLOT, self_entry);
    // Share every kernel-window table with the directory being forked.
    let mut slot: usize = KERNEL_WINDOW_FIRST_SLOT;
    while slot < SELF_MAP_SLOT
        invariant
            current.wf(),
            table.wf(),
            KERNEL_WINDOW_FIRST_SLOT <= slot <= SELF_MAP_SLOT,
            table@[SELF_MAP_SLOT as int].present,
            table@[SELF_MAP_SLOT as int].address == directory_frame.spec_address(),
            forall|i: int| 0 <= i < 0x300 ==> !(#[trigger] table@[i]).present,
            forall|i: int| slot <= i < 0x3ff ==> (#[trigger] table@[i]) == (PageEntry {
                present: false,
                writable: false,
                user: false,
                address: 0u32,
            }),
            forall|i: int|
                0x300 <= i < slot ==> (#[trigger] table@[i]).present == current.table@[i].present,
            forall|i: int|
                0x300 <= i < slot && #[trigger] table@[i].present ==> table@[i].address
                    == current.table@[i].address,
            forall|i: int| 0x300 <= i < slot ==> !(#[trigger] table@[i]).user,
            forall|i: int| 0x300 <= i < slot ==> !(#[trigger] table@[i]).writable,
        decreases SELF_MAP_SLOT - slot,
    {
        let src = current.table.get(slot);
        if src.is_present() {
            let mut entry = PageEntry::empty();
            entry.set_address(src.get_address());
            entry.set_present();
            table.set_entry(slot, entry);
        }
        slot += 1;
    }
    Ok(PageDirectory { frame: directory_frame, table, user_tables: Vec::new() })
}

impl PageDirectory {
    /// The private user tables are well-formed: each backs one user-space
    /// slot, no two back the same slot, and each is the table the directory
    /// entry points at, marked present and user-accessible.
    pub open spec fn user_tables_wf(self) -> bool {
        &&& forall|t: int|
            0 <= t < self.user_tables@.len() ==> (#[trigger] self.user_tables@[t]).slot < 0x300
                && self.user_tables@[t].table.wf() && self.table@[self.user_tables@[t].slot as int].present
                && self.table@[self.user_tables@[t].slot as int].user
                && self.table@[self.user_tables@[t].slot as int].address
                == self.user_tables@[t].frame.spec_address()
        &&& forall|t: int, u: int|
            0 <= t < u < self.user_tables@.len() ==> self.user_tables@[t].slot
                != self.user_tables@[u].slot
        &&& forall|i: int|
            0 <= i < 0x300 && (#[trigger] self.table@[i]).present ==> exists|t: int|
                0 <= t < self.user_tables@.len() && (#[trigger] self.user_tables@[t]).slot == i
    }

    /// Every user-accessible page mapped by this directory lies inside the
    /// process's regions.
    pub open spec fn user_mappings_within(self, regions: Seq<VirtualMemoryRegion>) -> bool {
        forall|t: int, e: int|
            0 <= t < self.user_tables@.len() && 0 <= e < 1024 && (#[trigger] self.user_tables@[t].table@[e]).present
                && self.user_tables@[t].table@[e].user ==> range_covered(
                regions,
                self.user_tables@[t].slot * 0x40_0000 + e * 0x1000,
                0x1000,
                false,
            )
    }

    /// A virtual address is reachable user-accessibly through this
    /// directory: its slot is present and user-accessible, and so is the
    /// page entry beneath it.
    pub open spec fn spec_user_accessible(self, va: int) -> bool {
        exists|t: int|
            0 <= t < self.user_tables@.len() && (#[trigger] self.user_tables@[t]).slot == va
                / 0x40_0000 && self.table@[va / 0x40_0000].present && self.table@[va
                / 0x40_0000].user && self.user_tables@[t].table@[(va % 0x40_0000) / 0x1000].present
                && self.user_tables@[t].table@[(va % 0x40_0000) / 0x1000].user
    }
}

/// Every virtual address reachable user-accessibly through a directory that
/// keeps its mappings within the regions lies inside some region.
pub proof fn lemma_user_reachable_in_regions(
    dir: PageDirectory,
    regions: Seq<VirtualMemoryRegion>,
    va: int,
)
    requires
        dir.user_mappings_within(regions),
        dir.spec_user_accessible(va),
        0 <= va,
    ensures
        addr_covered(regions, va, false),
{
    let t = choose|t: int|
        0 <= t < dir.user_tables@.len() && (#[trigger] dir.user_tables@[t]).slot == va / 0x40_0000
            && dir.table@[va / 0x40_0000].present && dir.table@[va / 0x40_0000].user
            && dir.user_tables@[t].table@[(va % 0x40_0000) / 0x1000].present
            && dir.user_tables@[t].table@[(va % 0x40_0000) / 0x1000].user;
    let e = (va % 0x40_0000) / 0x1000;
    assert(dir.user_tables@[t].table@[e].present && dir.user_tables@[t].table@[e].user);
    assert(range_covered(regions, dir.user_tables@[t].slot * 0x40_0000 + e * 0x1000, 0x1000, false));
    let page_base = dir.user_tables@[t].slot * 0x40_0000 + e * 0x1000;
    assert(page_base <= va < page_base + 0x1000) by (nonlinear_arith)
        requires
            page_base == (va / 0x40_0000) * 0x40_0000 + ((va % 0x40_0000) / 0x1000) * 0x1000,
            va >= 0,
    ;
    assert(addr_covered(regions, va, false));
}

/// Map one frame of user memory at a page-aligned virtual address of the
/// current directory, on behalf of the page-fault path. The page must lie
/// inside a region of the process; a page outside every region is refused
/// with `BadAddress` and nothing changes. A private page table is allocated
/// for the slot when the slot is empty.
pub fn map_user_page(
    dir: &mut PageDirectory,
    allocator: &mut FrameAllocator,
    regions: &MemoryRegions,
    va: u32,
    frame: Frame,
    writable: bool,
) -> (r: Result<(), SystemError>)
    requires
        old(dir).wf(),
        old(dir).user_tables_wf(),
        old(dir).user_mappings_within(regions@),
        old(allocator).wf(),
        regions.wf(),
        va % 0x1000 == 0,
        va < 0xc000_0000,
    ensures
        final(dir).wf(),
        final(dir).user_tables_wf(),
        final(dir).user_mappings_within(regions@),
        final(allocator).wf(),
        final(allocator)@.len() == old(allocator)@.len(),
        final(allocator).spec_reserved() == old(allocator).spec_reserved(),
        final(dir).frame == old(dir).frame,
        forall|i: int|
            0x300 <= i < 1024 ==> final(dir).table@[i] == old(dir).table@[i],
        match r {
            Ok(()) => {
                &&& final(dir).spec_user_accessible(va as int)
                &&& range_covered(regions@, va as int, 0x1000, false)
            },
            Err(e) => {
                &&& e == SystemError::BadAddress || e == SystemError::OutOfResources
                &&& e == SystemError::BadAddress ==> !range_covered(
                    regions@,
                    va as int,
                    0x1000,
                    false,
                ) && final(allocator)@ == old(allocator)@
                &&& e == SystemError::OutOfResources ==> count_free(old(allocator)@) == 0
                    && final(allocator)@ == old(allocator)@
            },
        },
{
    if !regions.check_user_range(va, 0x1000, false) {
        return Err(SystemError::BadAddress);
    }
    let slot: usize = (va >> 22) as usize;
    proof {
        assert(slot == va as int / 0x40_0000) by (bit_vector)
            requires
                slot == (va >> 22u32) as usize,
        ;
        assert(va as int / 0x40_0000 < 0x300) by (nonlinear_arith)
            requires
                va < 0xc000_0000,
        ;
    }
    let entry_index: usize = ((va >> 12) & 0x3ff) as usize;
    proof {
        assert(entry_index == (va as int % 0x40_0000) / 0x1000) by (bit_vector)
            requires
                entry_index == ((va >> 12u32) & 0x3ffu32) as usize,
        ;
        assert(entry_index < 1024) by (bit_vector)
            requires
                entry_index == ((va >> 12u32) & 0x3ffu32) as usize,
        ;
    }
    // Find the private table backing this slot, creating it if the slot is
    // still empty.
    let ghost dir0 = *dir;
    let mut table_index: usize = 0;
    let found: bool = match find_user_table(&dir.user_tables, slot) {
        Some(i) => {
            table_index = i;
            true
        },
        None => false,
    };
    if !found {
        let table_frame = match allocator.allocate() {
            Ok(f) => f,
            Err(e) => {
                return Err(e);
            },
        };
        let table = PageTable::zeroed();
        dir.user_tables.push(UserTable { slot, frame: table_frame, table });
        let mut dir_entry = PageEntry::empty();
        dir_entry.set_address(table_frame.get_address());
        dir_entry.set_present();
        dir_entry.set_user_access();
        dir_entry.set_writable();
        let ghost before_entry = dir.table@;
        dir.table.set_entry(slot, dir_entry);
        table_index = dir.user_tables.len() - 1;
        proof {
            assert forall|t: int|
                0 <= t < dir.user_tables@.len() implies (#[trigger] dir.user_tables@[t]).slot
                < 0x300 && dir.user_tables@[t].table.wf()
                && dir.table@[dir.user_tables@[t].slot as int].present
                && dir.table@[dir.user_tables@[t].slot as int].user
                && dir.table@[dir.user_tables@[t].slot as int].address
                == dir.user_tables@[t].frame.spec_address() by {
                if t < dir.user_tables@.len() - 1 {
                    assert(dir.user_tables@[t] == dir0.user_tables@[t]);
                    assert(dir0.user_tables@[t].slot != slot);
                }
            }
            assert forall|i: int|
                0 <= i < 0x300 && (#[trigger] dir.table@[i]).present implies exists|t: int|
                0 <= t < dir.user_tables@.len() && (#[trigger] dir.user_tables@[t]).slot == i by {
                if i != slot {
                    assert(dir0.table@[i].present);
                    let w = choose|t: int|
                        0 <= t < dir0.user_tables@.len() && (#[trigger] dir0.user_tables@[t]).slot
                            == i;
                    assert(dir.user_tables@[w].slot == i);
                } else {
                    assert(dir.user_tables@[dir.user_tables@.len() - 1].slot == i);
                }
            }
            assert forall|t: int, e: int|
                0 <= t < dir.user_tables@.len() && 0 <= e < 1024 && (
                #[trigger] dir.user_tables@[t].table@[e]).present
                    && dir.user_tables@[t].table@[e].user implies range_covered(
                regions@,
                dir.user_tables@[t].slot * 0x40_0000 + e * 0x1000,
                0x1000,
                false,
            ) by {
                if t < dir.user_tables@.len() - 1 {
                    assert(dir.user_tables@[t] == dir0.user_tables@[t]);
                } else {
                    assert(!dir.user_tables@[t].table@[e].present);
                }
            }
            assert forall|t: int, u: int|
                0 <= t < u < dir.user_tables@.len() implies dir.user_tables@[t].slot
                != dir.user_tables@[u].slot by {
                assert(dir.user_tables@[t] == dir0.user_tables@[t]);
                if u == dir.user_tables@.len() - 1 {
                    assert(dir0.user_tables@[t].slot != slot);
                } else {
                    assert(dir.user_tables@[u] == dir0.user_tables@[u]);
                }
            }
            assert(dir.user_tables_wf());
        }
    }
    // Install the page entry in the slot's private table.
    let ghost dir1 = *dir;
    let mut page_entry = PageEntry::empty();
    page_entry.set_address(frame.get_address());
    page_entry.set_present();
    page_entry.set_user_access();
    if writable {
        page_entry.set_writable();
    }
    let ut = user_table_mut(&mut dir.user_tables, table_index);
    ut.table.set_entry(entry_index, page_entry);
    proof {
        assert(dir.user_tables@[table_index as int].slot == slot);
        assert forall|t: int|
            0 <= t < dir.user_tables@.len() implies (#[trigger] dir.user_tables@[t]).slot < 0x300
            && dir.user_tables@[t].table.wf() && dir.table@[dir.user_tables@[t].slot as int].present
            && dir.table@[dir.user_tables@[t].slot as int].user
            && dir.table@[dir.user_tables@[t].slot as int].address
            == dir.user_tables@[t].frame.spec_address() by {
            if t != table_index {
                assert(dir.user_tables@[t] == dir1.user_tables@[t]);
            }
        }
        assert forall|t: int, e: int|
            0 <= t < dir.user_tables@.len() && 0 <= e < 1024 && (
            #[trigger] dir.user_tables@[t].table@[e]).present && dir.user_tables@[t].table@[e].user
                implies range_covered(
            regions@,
            dir.user_tables@[t].slot * 0x40_0000 + e * 0x1000,
            0x1000,
            false,
        ) by {
            if t != table_index {
                assert(dir.user_tables@[t] == dir1.user_tables@[t]);
            } else {
                if e != entry_index {
                    assert(dir1.user_tables@[t].table@[e] == dir.user_tables@[t].table@[e]);
                } else {
                    assert(slot * 0x40_0000 + entry_index * 0x1000 == va) by (nonlinear_arith)
                        requires
                            slot == va as int / 0x40_0000,
                            entry_index == (va as int % 0x40_0000) / 0x1000,
                            va % 0x1000 == 0,
                            0 <= va < 0xc000_0000,
                    ;
                }
            }
        }
        assert(dir1.user_tables_wf());
        assert forall|t: int, u: int|
            0 <= t < u < dir.user_tables@.len() implies dir.user_tables@[t].slot
            != dir.user_tables@[u].slot by {
            assert(dir.user_tables@[t].slot == dir1.user_tables@[t].slot);
            assert(dir.user_tables@[u].slot == dir1.user_tables@[u].slot);
        }
        assert forall|i: int|
            0 <= i < 0x300 && (#[trigger] dir.table@[i]).present implies exists|t: int|
            0 <= t < dir.user_tables@.len() && (#[trigger] dir.user_tables@[t]).slot == i by {
            let w = choose|t: int|
                0 <= t < dir1.user_tables@.len() && (#[trigger] dir1.user_tables@[t]).slot == i;
            assert(dir.user_tables@[w].slot == i);
        }
        assert(dir.spec_user_accessible(va as int)) by {
            assert(dir.user_tables@[table_index as int].slot == va as int / 0x40_0000);
            assert(dir.user_tables@[table_index as int].table@[(va as int % 0x40_0000)
                / 0x1000].present);
        }
    }
    Ok(())
}

/// The index of the private table backing a directory slot, if one exists.
fn find_user_table(v: &Vec<UserTable>, slot: usize) -> (r: Option<usize>)
    ensures
        match r {
            Some(i) => i < v@.len() && v@[i as int].slot == slot,
            None => forall|t: int| 0 <= t < v@.len() ==> (#[trigger] v@[t]).slot != slot,
        },
{
    let len: usize = v.len();
    let mut i: usize = 0;
    while i < len
        invariant
            i <= len,
            len == v@.len(),
            forall|t: int| 0 <= t < i ==> (#[trigger] v@[t]).slot != slot,
        decreases len - i,
    {
        if v[i].slot == slot {
            return Some(i);
        }
        i += 1;
    }
    None
}

/// Give out a mutable borrow of one private user table.
fn user_table_mut(v: &mut Vec<UserTable>, i: usize) -> (p: &mut UserTable)
    requires
        i < old(v)@.len(),
    ensures
        *p == old(v)@[i as int],
        final(v)@ == old(v)@.update(i as int, *final(p)),
{
    &mut v[i]
}

/// The physical bounds of the kernel image, fixed at boot: they decide what
/// the kernel window maps.
#[derive(Clone, Copy, Debug, PartialEq, Eq, Structural)]
pub struct KernelDataBounds {
    pub ro_start: u32,
    pub rw_end: u32,
    pub stack_start: u32,
}

/// The entry a kernel-window page table holds at index `e` when its chunk
/// starts at physical `chunk_base`: kernel image pages are mapped
/// read-execute at their own physical address, everything else stays empty.
pub open spec fn spec_window_entry(chunk_base: int, ro_start: int, rw_end: int, e: int) -> PageEntry {
    let pa = chunk_base + e * 0x1000;
    if ro_start <= pa < rw_end {
        PageEntry { present: true, writable: false, user: false, address: pa as u32 }
    } else {
        PageEntry { present: false, writable: false, user: false, address: 0u32 }
    }
}

/// Build one kernel-window page table: the 4 MiB chunk at `chunk_base`,
/// mapping the part of `[ro_start, rw_end)` it covers.
fn build_window_table(chunk_base: u32, ro_start: u32, rw_end: u32) -> (t: PageTable)
    requires
        chunk_base <= 0x3fc0_0000,
    ensures
        t.wf(),
        forall|e: int|
            0 <= e < 1024 ==> (#[trigger] t@[e]) == spec_window_entry(
                chunk_base as int,
                ro_start as int,
                rw_end as int,
                e,
            ),
{
    let mut entries: Vec<PageEntry> = Vec::new();
    let mut e: usize = 0;
    while e < 1024
        invariant
            e <= 1024,
            chunk_base <= 0x3fc0_0000,
            entries@.len() == e,
            forall|j: int|
                0 <= j < e ==> (#[trigger] entries@[j]) == spec_window_entry(
                    chunk_base as int,
                    ro_start as int,
                    rw_end as int,
                    j,
                ),
        decreases 1024 - e,
    {
        let pa: u32 = chunk_base + (e as u32) * 0x1000;
        if ro_start <= pa && pa < rw_end {
            entries.push(PageEntry { present: true, writable: false, user: false, address: pa });
        } else {
            entries.push(PageEntry { present: false, writable: false, user: false, address: 0 });
        }
        e += 1;
    }
    PageTable { entries }
}

/// One shared page table of the kernel window: the slot it serves, the
/// frame it lives in, and its contents.
pub struct KernelWindowTable {
    pub slot: usize,
    pub frame: Frame,
    pub table: PageTable,
}

/// Fill a directory's kernel window: slots from 0x300 up get page tables
/// covering `[ro_start, rw_end)` read-execute at their own physical
/// addresses, and slot 0x3fe gets the kernel-stack table, mapping the stack
/// page read-write. Every process must see the kernel identically, so forks
/// copy these slots as they are. The tables built are handed back; their
/// frames come from the allocator, and when too few frames are free nothing
/// is touched.
#[verifier::rlimit(100)]
pub fn map_kernel(
    allocator: &mut FrameAllocator,
    dir: &mut PageDirectory,
    bounds: &KernelDataBounds,
) -> (r: Result<Vec<KernelWindowTable>, SystemError>)
    requires
        old(allocator).wf(),
        old(dir).wf(),
        bounds.ro_start % 0x1000 == 0,
        bounds.rw_end % 0x1000 == 0,
        0x1000 <= bounds.rw_end <= 0x3f80_0000,
        bounds.ro_start < bounds.rw_end,
    ensures
        final(allocator).wf(),
        final(allocator)@.len() == old(allocator)@.len(),
        final(allocator).spec_reserved() == old(allocator).spec_reserved(),
        final(dir).frame == old(dir).frame,
        final(dir).user_tables == old(dir).user_tables,
        match r {
            Ok(tables) => {
                let n = ((bounds.rw_end - 1) / 0x40_0000) + 1;
                &&& final(dir).wf()
                &&& tables@.len() == n + 1
                &&& forall|c: int|
                    0 <= c < n ==> (#[trigger] tables@[c]).slot == 0x300 + c && tables@[c].table.wf()
                        && final(dir).table@[0x300 + c].present && !final(dir).table@[0x300
                        + c].user && final(dir).table@[0x300 + c].address
                        == tables@[c].frame.spec_address() && (forall|e: int|
                        0 <= e < 1024 ==> (#[trigger] tables@[c].table@[e]) == spec_window_entry(
                            c * 0x40_0000,
                            bounds.ro_start as int,
                            bounds.rw_end as int,
                            e,
                        ))
                &&& tables@[n as int].slot == KERNEL_STACK_SLOT
                &&& tables@[n as int].table.wf()
                &&& final(dir).table@[KERNEL_STACK_SLOT as int].present
                &&& !final(dir).table@[KERNEL_STACK_SLOT as int].user
                &&& final(dir).table@[KERNEL_STACK_SLOT as int].address == tables@[
                    n as int
                ].frame.spec_address()
                &&& tables@[n as int].table@[0x3fe] == (PageEntry {
                    present: true,
                    writable: true,
                    user: false,
                    address: bounds.stack_start,
                })
                &&& forall|i: int| 0 <= i < 0x300 ==> final(dir).table@[i] == old(dir).table@[i]
                &&& final(dir).table@[SELF_MAP_SLOT as int] == old(dir).table@[
                    SELF_MAP_SLOT as int
                ]
                &&& count_free(final(allocator)@) + n + 1 == count_free(old(allocator)@)
            },
            Err(e) => {
                &&& e == SystemError::OutOfResources
                &&& count_free(old(allocator)@) < ((bounds.rw_end - 1) / 0x40_0000 + 1) + 1
                &&& final(allocator)@ == old(allocator)@
                &&& *final(dir) == *old(dir)
            },
        },
{
    let n_chunks: usize = (((bounds.rw_end - 1) / 0x40_0000) + 1) as usize;
    let free: usize = allocator.count_free_frames();
    if free < n_chunks + 1 {
        return Err(SystemError::OutOfResources);
    }
    let ghost free0 = count_free(allocator@);
    let mut tables: Vec<KernelWindowTable> = Vec::new();
    let mut c: usize = 0;
    while c < n_chunks
        invariant
            c <= n_chunks,
            n_chunks <= 0xff,
            allocator.wf(),
            allocator@.len() == old(allocator)@.len(),
            allocator.spec_reserved() == old(allocator).spec_reserved(),
            count_free(allocator@) + c == free0,
            free0 >= n_chunks + 1,
            dir.wf(),
            dir.frame == old(dir).frame,
            dir.user_tables == old(dir).user_tables,
            bounds.ro_start % 0x1000 == 0,
            bounds.rw_end % 0x1000 == 0,
            0x1000 <= bounds.rw_end <= 0x3f80_0000,
            tables@.len() == c,
            forall|i: int| 0 <= i < 0x300 ==> dir.table@[i] == old(dir).table@[i],
            forall|i: int|
                0x300 + c <= i < 0x400 ==> dir.table@[i] == old(dir).table@[i],
            forall|j: int|
                0 <= j < c ==> (#[trigger] tables@[j]).slot == 0x300 + j && tables@[j].table.wf()
                    && dir.table@[0x300 + j].present && !dir.table@[0x300 + j].user
                    && dir.table@[0x300 + j].address == tables@[j].frame.spec_address() && (
                forall|e: int|
                    0 <= e < 1024 ==> (#[trigger] tables@[j].table@[e]) == spec_window_entry(
                        j * 0x40_0000,
                        bounds.ro_start as int,
                        bounds.rw_end as int,
                        e,
                    )),
        decreases n_chunks - c,
    {
        let frame = match allocator.allocate() {
            Ok(f) => f,
            Err(_) => {
                proof {
                    assert(false);
                }
                return Err(SystemError::OutOfResources);
            },
        };
        let chunk_base: u32 = (c as u32) * 0x40_0000;
        proof {
            assert(chunk_base <= 0x3fc0_0000) by (nonlinear_arith)
                requires
                    chunk_base == c * 0x40_0000,
                    c < 0xff,
            ;
        }
        let table = build_window_table(chunk_base, bounds.ro_start, bounds.rw_end);
        let mut entry = PageEntry::empty();
        entry.set_address(frame.get_address());
        entry.set_present();
        dir.table.set_entry(0x300 + c, entry);
        tables.push(KernelWindowTable { slot: 0x300 + c, frame, table });
        c += 1;
    }
    // The kernel-stack page table at slot 0x3fe: one read-write page for
    // the stack.
    let stack_frame = match allocator.allocate() {
        Ok(f) => f,
        Err(_) => {
            proof {
                assert(false);
            }
            return Err(SystemError::OutOfResources);
        },
    };
    let mut stack_table = PageTable::zeroed();
    stack_table.set_entry(
        0x3fe,
        PageEntry { present: true, writable: true, user: false, address: bounds.stack_start },
    );
    let mut entry = PageEntry::empty();
    entry.set_address(stack_frame.get_address());
    entry.set_present();
    dir.table.set_entry(KERNEL_STACK_SLOT, entry);
    tables.push(KernelWindowTable { slot: KERNEL_STACK_SLOT, frame: stack_frame, table: stack_table });
    proof {
        assert(n_chunks < 0x2fe);
    }
    Ok(tables)
}

/// Bring paging up for the first time: a fresh directory whose slot 0
/// identity-maps the first 4 MiB, covering every occupied frame and the
/// whole first megabyte, so the kernel keeps running at its physical
/// addresses the moment translation turns on. Loading `cr3` and setting the
/// paging bit are hardware steps outside this model.
pub fn init_paging(allocator: &mut FrameAllocator) -> (r: Result<
    (PageDirectory, KernelWindowTable),
    SystemError,
>)
    requires
        old(allocator).wf(),
        old(allocator)@.len() <= 1024,
    ensures
        final(allocator).wf(),
        final(allocator)@.len() == old(allocator)@.len(),
        final(allocator).spec_reserved() == old(allocator).spec_reserved(),
        match r {
            Ok((dir, identity)) => {
                &&& dir.wf()
                &&& identity.slot == 0
                &&& identity.table.wf()
                &&& dir.table@[0].present
                &&& dir.table@[0].address == identity.frame.spec_address()
                &&& forall|i: int|
                    0 <= i < 1024 ==> ((#[trigger] identity.table@[i]).present <==> (i < 256 || (i
                        < final(allocator)@.len() && final(allocator)@[i])))
                &&& forall|i: int|
                    0 <= i < 1024 && (#[trigger] identity.table@[i]).present
                        ==> identity.table@[i].address == i * 0x1000
            },
            Err(e) => {
                &&& e == SystemError::OutOfResources
                &&& count_free(old(allocator)@) < 2
                &&& final(allocator)@ == old(allocator)@
            },
        },
{
    if allocator.count_free_frames() < 2 {
        return Err(SystemError::OutOfResources);
    }
    let ghost free0 = count_free(allocator@);
    let dir_frame = match allocator.allocate() {
        Ok(f) => f,
        Err(_) => {
            proof {
                assert(false);
            }
            return Err(SystemError::OutOfResources);
        },
    };
    let table_frame = match allocator.allocate() {
        Ok(f) => f,
        Err(_) => {
            proof {
                assert(false);
            }
            return Err(SystemError::OutOfResources);
        },
    };
    // Identity-map the first 4 MiB: everything occupied, and the whole
    // first megabyte for the hardware ranges.
    let mut entries: Vec<PageEntry> = Vec::new();
    let mut i: usize = 0;
    while i < 1024
        invariant
            i <= 1024,
            allocator.wf(),
            allocator@.len() <= 1024,
            entries@.len() == i,
            forall|j: int|
                0 <= j < i ==> ((#[trigger] entries@[j]).present <==> (j < 256 || (j
                    < allocator@.len() && allocator@[j]))),
            forall|j: int|
                0 <= j < i && (#[trigger] entries@[j]).present ==> entries@[j].address == j
                    * 0x1000 && !entries@[j].user,
        decreases 1024 - i,
    {
        let address: u32 = (i as u32) * 0x1000;
        proof {
            assert(address / 0x1000 == i && address % 0x1000 == 0) by (nonlinear_arith)
                requires
                    i < 1024,
                    address == (i as u32) * 0x1000,
            ;
            assert(address & 0xffff_f000u32 == address) by (bit_vector)
                requires
                    address % 0x1000 == 0,
                    address < 0x40_0000u32,
            ;
        }
        let occupied: bool = if i < allocator.count_frames() {
            !allocator.is_free(Frame::new(address))
        } else {
            false
        };
        if occupied || i < 256 {
            entries.push(PageEntry { present: true, writable: true, user: false, address });
        } else {
            entries.push(PageEntry { present: false, writable: false, user: false, address: 0 });
        }
        i += 1;
    }
    let identity_table = PageTable { entries };
    let mut dir_table = PageTable::zeroed();
    // The directory points slot 0 at the identity table and the top slot at
    // itself.
    let mut first = PageEntry::empty();
    first.set_address(table_frame.get_address());
    first.set_present();
    first.set_writable();
    dir_table.set_entry(0, first);
    let mut self_entry = PageEntry::empty();
    self_entry.set_address(dir_frame.get_address());
    self_entry.set_present();
    dir_table.set_entry(SELF_MAP_SLOT, self_entry);
    Ok((
        PageDirectory { frame: dir_frame, table: dir_table, user_tables: Vec::new() },
        KernelWindowTable { slot: 0, frame: table_frame, table: identity_table },
    ))
}

} // verus!
