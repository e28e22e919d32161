//! Physical frame allocator.
//!
//! Tracks the occupancy of 4 KiB physical frames in a bitmap, one bit per
//! frame. Allocation is a first-fit scan from a rolling cursor that wraps
//! around; frames below the reserved bound are pre-marked allocated at
//! initialization and are therefore never returned.

use vstd::prelude::*;

use crate::error::SystemError;

verus! {

/// Bytes in one physical frame.
pub const FRAME_SIZE: u32 = 0x1000;

/// A 4 KiB-aligned physical page of RAM, identified by its physical address.
#[derive(Clone, Copy, Debug, PartialEq, Eq, Structural)]
pub struct Frame {
    pub address: u32,
}

impl Frame {
    /// The frame containing the given physical address (rounded down).
    pub fn new(address: u32) -> (f: Frame)
        ensures
            f.spec_address() == address & 0xffff_f000u32,
    {
        Frame { address: address & 0xffff_f000 }
    }

    pub open spec fn spec_address(self) -> u32 {
        self.address
    }

    /// The index of this frame in the allocator's bitmap.
    pub open spec fn spec_index(self) -> int {
        (self.address as int) / 0x1000
    }

    pub fn get_address(self) -> (a: u32)
        ensures
            a == self.spec_address(),
    {
        self.address
    }
}

/// Number of free (unallocated) frames recorded in a bitmap; an entry is
/// `true` when the frame is allocated.
pub open spec fn count_free(bits: Seq<bool>) -> nat
    decreases bits.len(),
{
    if bits.len() == 0 {
        0
    } else {
        count_free(bits.drop_last()) + if bits.last() {
            0nat
        } else {
            1nat
        }
    }
}

/// The set of indices of free frames in a bitmap.
pub open spec fn free_frame_set(bits: Seq<bool>) -> Set<int> {
    Set::new(|i: int| 0 <= i < bits.len() && !bits[i])
}

/// Counting the free frames one prefix entry at a time.
pub proof fn lemma_count_free_take_step(bits: Seq<bool>, i: int)
    requires
        0 <= i < bits.len(),
    ensures
        count_free(bits.take(i + 1)) == count_free(bits.take(i)) + if bits[i] {
            0nat
        } else {
            1nat
        },
{
    assert(bits.take(i + 1).drop_last() =~= bits.take(i));
    assert(bits.take(i + 1).last() == bits[i]);
}

/// A bitmap whose frames are all allocated has no free frame.
pub proof fn lemma_count_free_none(bits: Seq<bool>)
    requires
        forall|i: int| 0 <= i < bits.len() ==> bits[i],
    ensures
        count_free(bits) == 0,
    decreases bits.len(),
{
    if bits.len() > 0 {
        lemma_count_free_none(bits.drop_last());
    }
}

/// Updating one entry moves the free count by exactly that entry's change.
pub proof fn lemma_count_free_update(bits: Seq<bool>, i: int, v: bool)
    requires
        0 <= i < bits.len(),
    ensures
        count_free(bits.update(i, v)) + if bits[i] {
            0nat
        } else {
            1nat
        } == count_free(bits) + if v {
            0nat
        } else {
            1nat
        },
    decreases bits.len(),
{
    if i == bits.len() - 1 {
        assert(bits.update(i, v).drop_last() =~= bits.drop_last());
    } else {
        assert(bits.update(i, v).drop_last() =~= bits.drop_last().update(i, v));
        lemma_count_free_update(bits.drop_last(), i, v);
    }
}

/// The free count of a bitmap is the cardinality of its set of free frames:
/// every free frame is counted exactly once.
pub proof fn lemma_count_free_is_cardinality(bits: Seq<bool>)
    ensures
        count_free(bits) == free_frame_set(bits).len(),
    decreases bits.len(),
{
    if bits.len() == 0 {
        assert(free_frame_set(bits) =~= Set::<int>::empty());
    } else {
        let prefix = bits.drop_last();
        lemma_count_free_is_cardinality(prefix);
        let last: int = bits.len() - 1;
        if bits.last() {
            assert(free_frame_set(bits) =~= free_frame_set(prefix));
        } else {
            assert(free_frame_set(bits) =~= free_frame_set(prefix).insert(last));
            assert(free_frame_set(prefix).finite()) by {
                lemma_free_frame_set_finite(prefix);
            }
            assert(!free_frame_set(prefix).contains(last));
        }
    }
}

/// The set of free frames is finite, being bounded by the bitmap's length.
pub proof fn lemma_free_frame_set_finite(bits: Seq<bool>)
    ensures
        free_frame_set(bits).finite(),
{
    let bound = vstd::set_lib::set_int_range(0, bits.len() as int);
    vstd::set_lib::lemma_int_range(0, bits.len() as int);
    assert(free_frame_set(bits).subset_of(bound));
    vstd::set_lib::lemma_len_subset(free_frame_set(bits), bound);
}

/// A bitmap whose allocated frames are exactly a prefix has every later
/// frame free: the free count is the length past the prefix.
pub proof fn lemma_count_free_prefix_allocated(bits: Seq<bool>, reserved: int)
    requires
        0 <= reserved <= bits.len(),
        forall|i: int| 0 <= i < bits.len() ==> (bits[i] <==> i < reserved),
    ensures
        count_free(bits) == bits.len() - reserved,
    decreases bits.len(),
{
    if bits.len() > 0 {
        let r2: int = if reserved < bits.len() {
            reserved
        } else {
            bits.len() - 1
        };
        lemma_count_free_prefix_allocated(bits.drop_last(), r2);
    }
}

/// Releasing a frame: freed when it is currently allocated and not
/// reserved; otherwise the bitmap is untouched.
pub open spec fn spec_release(bits: Seq<bool>, reserved: int, index: int) -> Seq<bool> {
    if reserved <= index < bits.len() && bits[index] {
        bits.update(index, false)
    } else {
        bits
    }
}

/// Occupancy of every physical frame: one bit per frame, `true` when the
/// frame is allocated. First-fit allocation resumes from a rolling cursor.
pub struct FrameAllocator {
    pub bits: Vec<bool>,
    pub cursor: usize,
    pub reserved_frames: usize,
}

impl FrameAllocator {
    /// The bitmap, one entry per frame, `true` when allocated.
    pub open spec fn view(self) -> Seq<bool> {
        self.bits@
    }

    /// Frames below this index are permanently reserved.
    pub open spec fn spec_reserved(self) -> int {
        self.reserved_frames as int
    }

    /// The allocator's bookkeeping is consistent. The frame count is bounded
    /// by the 32-bit physical address space.
    pub open spec fn wf(self) -> bool {
        &&& self.cursor <= self.bits@.len()
        &&& self.reserved_frames <= self.bits@.len()
        &&& self.bits@.len() <= 0x100000
        &&& forall|i: int| 0 <= i < self.reserved_frames ==> self.bits@[i]
    }

    /// An allocator covering no memory; `init` gives it its range.
    pub fn new() -> (a: FrameAllocator)
        ensures
            a.wf(),
            a@.len() == 0,
    {
        FrameAllocator { bits: Vec::new(), cursor: 0, reserved_frames: 0 }
    }

    /// Cover physical memory up to `range_end` (a whole number of frames);
    /// frames overlapping any address below `reserved_below` are pre-marked
    /// allocated and never handed out.
    pub fn init(&mut self, range_end: u32, reserved_below: u32)
        requires
            reserved_below <= range_end,
            range_end % 0x1000 == 0,
        ensures
            final(self).wf(),
            final(self)@.len() == range_end / 0x1000,
            final(self).spec_reserved() == (reserved_below + 0xfff) / 0x1000,
            forall|i: int|
                0 <= i < final(self)@.len() ==> (final(self)@[i] <==> i < final(self).spec_reserved()),
    {
        let frame_count: usize = (range_end / 0x1000) as usize;
        let reserved: usize = ((reserved_below as u64 + 0xfff) / 0x1000) as usize;
        proof {
            assert(reserved <= frame_count) by (nonlinear_arith)
                requires
                    reserved_below <= range_end,
                    range_end % 0x1000 == 0,
                    frame_count == range_end / 0x1000,
                    reserved == (reserved_below + 0xfff) / 0x1000,
            ;
        }
        let mut bits: Vec<bool> = Vec::new();
        let mut i: usize = 0;
        while i < frame_count
            invariant
                i <= frame_count,
                bits@.len() == i,
                forall|j: int| 0 <= j < i ==> (bits@[j] <==> j < reserved),
            decreases frame_count - i,
        {
            bits.push(i < reserved);
            i += 1;
        }
        self.bits = bits;
        self.cursor = reserved;
        self.reserved_frames = reserved;
    }

    /// Total number of frames tracked.
    pub fn count_frames(&self) -> (n: usize)
        ensures
            n == self@.len(),
    {
        self.bits.len()
    }

    /// Number of frames currently free. Equals the cardinality of the set of
    /// free frames (`lemma_count_free_is_cardinality`).
    pub fn count_free_frames(&self) -> (n: usize)
        ensures
            n == count_free(self@),
    {
        let len: usize = self.bits.len();
        let mut n: usize = 0;
        let mut i: usize = 0;
        while i < len
            invariant
                i <= len,
                len == self.bits@.len(),
                n <= i,
                n == count_free(self.bits@.take(i as int)),
            decreases len - i,
        {
            proof {
                lemma_count_free_take_step(self.bits@, i as int);
            }
            if !self.bits[i] {
                n += 1;
            }
            i += 1;
        }
        proof {
            assert(self.bits@.take(len as int) =~= self.bits@);
        }
        n
    }

    /// Whether the frame is free. The frame must lie in the tracked range.
    pub fn is_free(&self, frame: Frame) -> (r: bool)
        requires
            frame.spec_index() < self@.len(),
        ensures
            r == !self@[frame.spec_index()],
    {
        let index: usize = (frame.get_address() / 0x1000) as usize;
        !self.bits[index]
    }

    /// Allocate a free frame, first-fit from the rolling cursor, wrapping
    /// around once. Fails exactly when no frame is free, and then changes
    /// nothing.
    pub fn allocate(&mut self) -> (r: Result<Frame, SystemError>)
        requires
            old(self).wf(),
        ensures
            final(self).wf(),
            final(self)@.len() == old(self)@.len(),
            final(self).spec_reserved() == old(self).spec_reserved(),
            match r {
                Ok(f) => {
                    &&& 0 <= f.spec_index() < old(self)@.len()
                    &&& f.spec_index() >= old(self).spec_reserved()
                    &&& f.spec_address() == f.spec_index() * 0x1000
                    &&& !old(self)@[f.spec_index()]
                    &&& final(self)@ == old(self)@.update(f.spec_index(), true)
                    &&& count_free(final(self)@) + 1 == count_free(old(self)@)
                    // First fit from the rolling cursor: every frame from the
                    // cursor up to the chosen one (wrapping around the end)
                    // was already allocated.
                    &&& ({
                        let start = if old(self).cursor < old(self)@.len() {
                            old(self).cursor as int
                        } else {
                            0
                        };
                        &&& (f.spec_index() >= start ==> forall|j: int|
                            start <= j < f.spec_index() ==> old(self)@[j])
                        &&& (f.spec_index() < start ==> (forall|j: int|
                            start <= j < old(self)@.len() ==> old(self)@[j]) && (forall|j: int|
                            0 <= j < f.spec_index() ==> old(self)@[j]))
                    })
                },
                Err(e) => {
                    &&& e == SystemError::OutOfResources
                    &&& final(self)@ == old(self)@
                    &&& count_free(old(self)@) == 0
                },
            },
    {
        let len: usize = self.bits.len();
        let start: usize = if self.cursor < len {
            self.cursor
        } else {
            0
        };
        let mut offset: usize = 0;
        while offset < len
            invariant
                self == old(self),
                self.wf(),
                len == self.bits@.len(),
                len <= 0x100000,
                len == 0 || start < len,
                start == if old(self).cursor < old(self)@.len() {
                    old(self).cursor as int
                } else {
                    0
                },
                offset <= len,
                forall|i: int| start <= i < start + offset && i < len ==> self.bits@[i],
                forall|i: int| 0 <= i && i + len < start + offset ==> self.bits@[i],
            decreases len - offset,
        {
            let index: usize = if offset < len - start {
                start + offset
            } else {
                offset - (len - start)
            };
            if !self.bits[index] {
                proof {
                    assert(index >= self.reserved_frames) by {
                        assert(!self.bits@[index as int]);
                    }
                    lemma_count_free_update(self.bits@, index as int, true);
                }
                self.bits.set(index, true);
                self.cursor = index + 1;
                let address: u32 = (index as u32) * 0x1000;
                proof {
                    assert(address / 0x1000 == index) by (nonlinear_arith)
                        requires
                            index < 0x100000,
                            address == (index as u32) * 0x1000,
                    ;
                }
                return Ok(Frame { address });
            }
            offset += 1;
        }
        proof {
            assert forall|i: int| 0 <= i < self.bits@.len() implies self.bits@[i] by {
                if i >= start {
                    assert(start <= i < start + len);
                } else {
                    assert(0 <= i + len < start + len);
                }
            }
            lemma_count_free_none(self.bits@);
        }
        Err(SystemError::OutOfResources)
    }

    /// Return a frame to the free pool when it is allocated and not
    /// reserved; anything else leaves the bitmap untouched. Used when
    /// reaping a process.
    pub fn release(&mut self, frame: Frame)
        requires
            old(self).wf(),
        ensures
            final(self).wf(),
            final(self)@ == spec_release(old(self)@, old(self).spec_reserved(), frame.spec_index()),
            final(self)@.len() == old(self)@.len(),
            final(self).spec_reserved() == old(self).spec_reserved(),
    {
        let index: usize = (frame.get_address() / 0x1000) as usize;
        if index < self.bits.len() && index >= self.reserved_frames && self.bits[index] {
            self.bits.set(index, false);
        }
    }

    /// Return an allocated frame to the free pool. Reserved frames are the
    /// kernel's own and stay allocated forever.
    pub fn free(&mut self, frame: Frame)
        requires
            old(self).wf(),
            old(self).spec_reserved() <= frame.spec_index() < old(self)@.len(),
            old(self)@[frame.spec_index()],
        ensures
            final(self).wf(),
            final(self)@ == old(self)@.update(frame.spec_index(), false),
            final(self).spec_reserved() == old(self).spec_reserved(),
            count_free(final(self)@) == count_free(old(self)@) + 1,
    {
        let index: usize = (frame.get_address() / 0x1000) as usize;
        proof {
            lemma_count_free_update(self.bits@, index as int, false);
        }
        self.bits.set(index, false);
    }
}

} // verus!
