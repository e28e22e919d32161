//! File handles.
//!
//! A `LocalHandle` is unique within one filesystem and minted by that
//! filesystem's monotonic allocator. A `FileHandle` is a per-process index
//! into the process's open-file table, which maps it to a drive number and
//! the drive's `LocalHandle`. File handles are allocated lowest-vacant-first.

use vstd::prelude::*;

use crate::error::SystemError;

verus! {

/// Handle unique within a single filesystem.
#[derive(Clone, Copy, Debug, PartialEq, Eq, Structural)]
pub struct LocalHandle {
    pub handle: u32,
}

impl LocalHandle {
    pub fn new(handle: u32) -> (h: LocalHandle)
        ensures
            h.handle == handle,
    {
        LocalHandle { handle }
    }

    pub fn as_u32(&self) -> (v: u32)
        ensures
            v == self.handle,
    {
        self.handle
    }
}

/// Handle unique within a single process.
#[derive(Clone, Copy, Debug, PartialEq, Eq, Structural)]
pub struct FileHandle {
    pub handle: u32,
}

impl FileHandle {
    pub fn new(handle: u32) -> (h: FileHandle)
        ensures
            h.handle == handle,
    {
        FileHandle { handle }
    }

    pub fn as_u32(&self) -> (v: u32)
        ensures
            v == self.handle,
    {
        self.handle
    }
}

/// Mints local handles for one filesystem: a monotonic counter.
pub struct HandleAllocator {
    pub next: u32,
}

impl HandleAllocator {
    pub fn new() -> (a: HandleAllocator)
        ensures
            a.next == 0,
    {
        HandleAllocator { next: 0 }
    }

    /// The next fresh handle; never repeats.
    pub fn get_next(&mut self) -> (h: LocalHandle)
        requires
            old(self).next < 0xffff_ffffu32,
        ensures
            h.handle == old(self).next,
            final(self).next == old(self).next + 1,
    {
        let handle: u32 = self.next;
        self.next = self.next + 1;
        LocalHandle { handle }
    }
}

/// What a per-process file handle resolves to: a mounted drive and the
/// drive's own handle.
#[derive(Clone, Copy, Debug, PartialEq, Eq, Structural)]
pub struct DeviceHandlePair {
    pub drive: usize,
    pub handle: LocalHandle,
}

/// Number of open entries in a handle table.
pub open spec fn count_open(entries: Seq<Option<DeviceHandlePair>>) -> nat
    decreases entries.len(),
{
    if entries.len() == 0 {
        0
    } else {
        count_open(entries.drop_last()) + if entries.last() is Some {
            1nat
        } else {
            0nat
        }
    }
}

/// The lowest vacant slot of a handle table, or its length when full.
pub open spec fn first_vacant(entries: Seq<Option<DeviceHandlePair>>) -> int
    decreases entries.len(),
{
    if entries.len() == 0 {
        0
    } else if entries[0] is None {
        0
    } else {
        1 + first_vacant(entries.drop_first())
    }
}

/// What opening a handle does to the table: fill the lowest vacant slot, or
/// grow the table by one.
pub open spec fn spec_open_handle(entries: Seq<Option<DeviceHandlePair>>, pair: DeviceHandlePair) -> Seq<
    Option<DeviceHandlePair>,
> {
    if first_vacant(entries) < entries.len() {
        entries.update(first_vacant(entries), Some(pair))
    } else {
        entries.push(Some(pair))
    }
}

/// What closing a handle does to the table: vacate the slot; a handle out of
/// range changes nothing.
pub open spec fn spec_close_handle(entries: Seq<Option<DeviceHandlePair>>, handle: int) -> Seq<
    Option<DeviceHandlePair>,
> {
    if 0 <= handle < entries.len() {
        entries.update(handle, None)
    } else {
        entries
    }
}

/// The lowest vacant slot is preceded by occupied slots only, and is itself
/// vacant when inside the table.
pub proof fn lemma_first_vacant_char(entries: Seq<Option<DeviceHandlePair>>)
    ensures
        0 <= first_vacant(entries) <= entries.len(),
        forall|j: int| 0 <= j < first_vacant(entries) ==> entries[j] is Some,
        first_vacant(entries) < entries.len() ==> entries[first_vacant(entries)] is None,
    decreases entries.len(),
{
    if entries.len() > 0 && entries[0] is Some {
        let rest = entries.drop_first();
        lemma_first_vacant_char(rest);
        assert forall|j: int| 0 <= j < first_vacant(entries) implies entries[j] is Some by {
            if j > 0 {
                assert(rest[j - 1] is Some);
            }
        }
        if first_vacant(entries) < entries.len() {
            assert(rest[first_vacant(entries) - 1] is None);
        }
    }
}

/// Opening one entry raises the open count by one.
pub proof fn lemma_count_open_update(entries: Seq<Option<DeviceHandlePair>>, i: int, v: Option<
    DeviceHandlePair,
>)
    requires
        0 <= i < entries.len(),
    ensures
        count_open(entries.update(i, v)) + if entries[i] is Some {
            1nat
        } else {
            0nat
        } == count_open(entries) + if v is Some {
            1nat
        } else {
            0nat
        },
    decreases entries.len(),
{
    if i == entries.len() - 1 {
        assert(entries.update(i, v).drop_last() =~= entries.drop_last());
    } else {
        assert(entries.update(i, v).drop_last() =~= entries.drop_last().update(i, v));
        lemma_count_open_update(entries.drop_last(), i, v);
    }
}

/// Opening and then closing the fresh handle leaves the table with exactly
/// the open count it had before: one fewer entry than right after the open.
pub proof fn lemma_open_then_close_balances(entries: Seq<Option<DeviceHandlePair>>, pair: DeviceHandlePair)
    ensures
        count_open(spec_open_handle(entries, pair)) == count_open(entries) + 1,
        count_open(spec_close_handle(spec_open_handle(entries, pair), first_vacant(entries)))
            == count_open(entries),
{
    let fv = first_vacant(entries);
    lemma_first_vacant_char(entries);
    let opened = spec_open_handle(entries, pair);
    if fv < entries.len() {
        lemma_count_open_update(entries, fv, Some(pair));
        lemma_count_open_update(opened, fv, None);
    } else {
        assert(opened.drop_last() =~= entries);
        lemma_count_open_update(opened, fv, None);
    }
}

/// A closed handle resolves to nothing: once a handle is vacated, any
/// later use of it finds no entry, so a read through it is refused with a
/// bad-handle error.
pub proof fn lemma_close_vacates(entries: Seq<Option<DeviceHandlePair>>, handle: int)
    ensures
        spec_close_handle(entries, handle).len() == entries.len(),
        0 <= handle < entries.len() ==> spec_close_handle(entries, handle)[handle] is None,
{
}

/// The per-process table of open files.
pub struct FileHandleMap {
    pub entries: Vec<Option<DeviceHandlePair>>,
}

impl FileHandleMap {
    pub open spec fn view(self) -> Seq<Option<DeviceHandlePair>> {
        self.entries@
    }

    /// What a file handle resolves to, if open.
    pub open spec fn spec_lookup(self, handle: int) -> Option<DeviceHandlePair> {
        if 0 <= handle < self.entries@.len() {
            self.entries@[handle]
        } else {
            None
        }
    }

    /// The table never outgrows the range of handles the ABI can carry.
    pub open spec fn wf(self) -> bool {
        self.entries@.len() < 0xffff_ffff
    }

    pub fn new() -> (m: FileHandleMap)
        ensures
            m@.len() == 0,
    {
        FileHandleMap { entries: Vec::new() }
    }

    /// Bind the lowest vacant file handle to `(drive, local)`. Fails only
    /// when the table already holds the largest handle the ABI can carry.
    pub fn open_handle(&mut self, drive: usize, local: LocalHandle) -> (r: Result<
        FileHandle,
        SystemError,
    >)
        requires
            old(self).wf(),
        ensures
            final(self).wf(),
            match r {
                Ok(fh) => {
                    &&& fh.handle == first_vacant(old(self)@)
                    &&& first_vacant(old(self)@) < 0xffff_fffe
                    &&& final(self)@ == spec_open_handle(
                        old(self)@,
                        DeviceHandlePair { drive, handle: local },
                    )
                    &&& final(self).spec_lookup(fh.handle as int) == Some(
                        DeviceHandlePair { drive, handle: local },
                    )
                    &&& count_open(final(self)@) == count_open(old(self)@) + 1
                },
                Err(e) => {
                    &&& e == SystemError::OutOfResources
                    &&& first_vacant(old(self)@) >= 0xffff_fffe
                    &&& final(self)@ == old(self)@
                },
            },
    {
        let pair = DeviceHandlePair { drive, handle: local };
        let len: usize = self.entries.len();
        proof {
            lemma_first_vacant_char(self@);
        }
        let mut i: usize = 0;
        while i < len
            invariant
                self == old(self),
                pair == (DeviceHandlePair { drive, handle: local }),
                i <= len,
                len == self.entries@.len(),
                len < 0xffff_ffff,
                forall|j: int| 0 <= j < i ==> self.entries@[j] is Some,
            decreases len - i,
        {
            if self.entries[i].is_none() {
                proof {
                    lemma_first_vacant_char(self@);
                    assert(i as int == first_vacant(self@));
                    lemma_count_open_update(self@, i as int, Some(pair));
                }
                self.entries.set(i, Some(pair));
                proof {
                    assert(self@ == spec_open_handle(
                        old(self)@,
                        DeviceHandlePair { drive, handle: local },
                    ));
                }
                return Ok(FileHandle { handle: i as u32 });
            }
            i += 1;
        }
        if len >= 0xffff_fffeusize {
            proof {
                lemma_first_vacant_char(self@);
                if first_vacant(self@) < self@.len() {
                    assert(self@[first_vacant(self@)] is None);
                }
            }
            return Err(SystemError::OutOfResources);
        }
        proof {
            assert(first_vacant(self@) == len);
            assert(self@.push(Some(pair)).drop_last() =~= self@);
        }
        self.entries.push(Some(pair));
        Ok(FileHandle { handle: len as u32 })
    }

    /// Bind an explicit file handle, vacating whatever it held; the table
    /// grows as needed. Used by `dup` with an explicit destination.
    pub fn open_handle_at(&mut self, handle: FileHandle, drive: usize, local: LocalHandle)
        requires
            old(self).wf(),
            handle.handle < 0xffff_fffeu32,
        ensures
            final(self).wf(),
            final(self)@.len() >= old(self)@.len(),
            final(self)@.len() > handle.handle,
            final(self).spec_lookup(handle.handle as int) == Some(
                DeviceHandlePair { drive, handle: local },
            ),
            forall|j: int|
                0 <= j < old(self)@.len() && j != handle.handle ==> final(self)@[j] == old(self)@[j],
            forall|j: int|
                old(self)@.len() <= j < final(self)@.len() && j != handle.handle
                    ==> final(self)@[j] is None,
    {
        let index: usize = handle.as_u32() as usize;
        while self.entries.len() <= index
            invariant
                self.entries@.len() >= old(self)@.len(),
                self.entries@.len() <= index + 1 || self.entries@.len() == old(self)@.len(),
                forall|j: int| 0 <= j < old(self)@.len() ==> self.entries@[j] == old(self)@[j],
                forall|j: int|
                    old(self)@.len() <= j < self.entries@.len() ==> self.entries@[j] is None,
            decreases index + 1 - self.entries@.len(),
        {
            self.entries.push(None);
        }
        self.entries.set(index, Some(DeviceHandlePair { drive, handle: local }));
    }

    /// Vacate a file handle; a handle that is not open changes nothing.
    pub fn close_handle(&mut self, handle: FileHandle)
        ensures
            final(self)@ == spec_close_handle(old(self)@, handle.handle as int),
    {
        let index: usize = handle.as_u32() as usize;
        if index < self.entries.len() {
            self.entries.set(index, None);
        }
    }

    /// The drive and local handle a file handle resolves to, if open.
    pub fn get_drive_and_handle(&self, handle: FileHandle) -> (r: Option<DeviceHandlePair>)
        ensures
            r == self.spec_lookup(handle.handle as int),
    {
        let index: usize = handle.as_u32() as usize;
        if index < self.entries.len() {
            self.entries[index]
        } else {
            None
        }
    }

    /// Number of open entries.
    pub fn count(&self) -> (n: usize)
        ensures
            n == count_open(self@),
    {
        let len: usize = self.entries.len();
        let mut n: usize = 0;
        let mut i: usize = 0;
        while i < len
            invariant
                i <= len,
                len == self.entries@.len(),
                n <= i,
                n == count_open(self.entries@.take(i as int)),
            decreases len - i,
        {
            proof {
                assert(self.entries@.take(i + 1).drop_last() =~= self.entries@.take(i as int));
                assert(self.entries@.take(i + 1).last() == self.entries@[i as int]);
            }
            if self.entries[i].is_some() {
                n += 1;
            }
            i += 1;
        }
        proof {
            assert(self.entries@.take(len as int) =~= self.entries@);
        }
        n
    }
}

} // verus!
