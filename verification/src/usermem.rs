//! The dispatcher's window onto user memory.
//!
//! System calls hand the kernel raw user addresses. Before any byte is
//! touched, the dispatcher checks the whole range against the current
//! process's regions; the bytes themselves are then read and written
//! through this window, which models the user part of the address space as
//! one contiguous span.

use vstd::prelude::*;

verus! {

/// A contiguous span of user memory starting at `base`.
pub struct UserMemory {
    pub base: u32,
    pub bytes: Vec<u8>,
}

impl UserMemory {
    /// The span stays inside the 32-bit address space.
    pub open spec fn wf(self) -> bool {
        &&& self.bytes@.len() <= 0xffff_ffff
        &&& self.base + self.bytes@.len() <= 0x1_0000_0000
    }

    /// The span covers every byte of `[addr, addr + len)`.
    pub open spec fn spec_contains_range(self, addr: int, len: int) -> bool {
        self.base <= addr && addr + len <= self.base + self.bytes@.len()
    }

    /// The bytes at `[addr, addr + len)`.
    pub open spec fn spec_read(self, addr: int, len: int) -> Seq<u8> {
        self.bytes@.subrange(addr - self.base, addr - self.base + len)
    }

    /// The whole span after `data` is written at `addr`.
    pub open spec fn spec_write(self, addr: int, data: Seq<u8>) -> Seq<u8> {
        self.bytes@.take(addr - self.base) + data + self.bytes@.skip(addr - self.base + data.len())
    }

    /// A little-endian 32-bit value read from four bytes.
    pub open spec fn spec_u32_le(b: Seq<u8>) -> int {
        b[0] + b[1] * 0x100 + b[2] * 0x1_0000 + b[3] * 0x100_0000
    }

    /// A span of user memory filled with the given bytes.
    pub fn new(base: u32, bytes: Vec<u8>) -> (r: UserMemory)
        requires
            bytes@.len() <= 0xffff_ffff,
            base + bytes@.len() <= 0x1_0000_0000,
        ensures
            r.wf(),
            r.base == base,
            r.bytes == bytes,
    {
        UserMemory { base, bytes }
    }

    pub fn contains_range(&self, addr: u32, len: u32) -> (r: bool)
        requires
            self.wf(),
        ensures
            r == self.spec_contains_range(addr as int, len as int),
    {
        self.base <= addr && addr as u64 + len as u64 <= self.base as u64 + self.bytes.len() as u64
    }

    /// Copy `len` bytes out of user memory.
    pub fn read_bytes(&self, addr: u32, len: u32) -> (r: Vec<u8>)
        requires
            self.wf(),
            self.spec_contains_range(addr as int, len as int),
        ensures
            r@ == self.spec_read(addr as int, len as int),
    {
        let offset: usize = (addr - self.base) as usize;
        let n: usize = len as usize;
        let mut out: Vec<u8> = Vec::new();
        let mut i: usize = 0;
        while i < n
            invariant
                i <= n,
                offset + n <= self.bytes@.len(),
                self.bytes@.len() <= 0xffff_ffff,
                out@.len() == i,
                forall|j: int| 0 <= j < i ==> out@[j] == self.bytes@[offset + j],
            decreases n - i,
        {
            let byte: u8 = self.bytes[offset + i];
            out.push(byte);
            i += 1;
        }
        proof {
            assert(out@ =~= self.spec_read(addr as int, len as int));
        }
        out
    }

    /// Copy bytes into user memory.
    pub fn write_bytes(&mut self, addr: u32, data: &[u8])
        requires
            old(self).wf(),
            old(self).spec_contains_range(addr as int, data@.len() as int),
        ensures
            final(self).wf(),
            final(self).base == old(self).base,
            final(self).bytes@ == old(self).spec_write(addr as int, data@),
            final(self).bytes@.len() == old(self).bytes@.len(),
    {
        let offset: usize = (addr - self.base) as usize;
        let n: usize = data.len();
        let mut i: usize = 0;
        while i < n
            invariant
                i <= n,
                n == data@.len(),
                offset + n <= self.bytes@.len(),
                self.bytes@.len() <= 0xffff_ffff,
                self.base == old(self).base,
                self.bytes@.len() == old(self).bytes@.len(),
                forall|j: int| 0 <= j < i ==> self.bytes@[offset + j] == data@[j],
                forall|j: int| 0 <= j < offset ==> self.bytes@[j] == old(self).bytes@[j],
                forall|j: int|
                    offset + n <= j < self.bytes@.len() ==> self.bytes@[j] == old(self).bytes@[j],
                forall|j: int|
                    offset + i <= j < offset + n ==> self.bytes@[j] == old(self).bytes@[j],
            decreases n - i,
        {
            let byte: u8 = data[i];
            self.bytes.set(offset + i, byte);
            i += 1;
        }
        proof {
            assert(self.bytes@ =~= old(self).spec_write(addr as int, data@));
        }
    }

    /// Read a little-endian 32-bit value from user memory.
    pub fn read_u32(&self, addr: u32) -> (r: u32)
        requires
            self.wf(),
            self.spec_contains_range(addr as int, 4),
        ensures
            r == UserMemory::spec_u32_le(self.spec_read(addr as int, 4)),
    {
        let offset: usize = (addr - self.base) as usize;
        let b0: u32 = self.bytes[offset] as u32;
        let b1: u32 = self.bytes[offset + 1] as u32;
        let b2: u32 = self.bytes[offset + 2] as u32;
        let b3: u32 = self.bytes[offset + 3] as u32;
        let r: u32 = b0 + b1 * 0x100 + b2 * 0x1_0000 + b3 * 0x100_0000;
        proof {
            let b = self.spec_read(addr as int, 4);
            assert(b[0] == self.bytes@[offset as int]);
            assert(b[1] == self.bytes@[offset + 1]);
            assert(b[2] == self.bytes@[offset + 2]);
            assert(b[3] == self.bytes@[offset + 3]);
        }
        r
    }

    /// Write a little-endian 32-bit value into user memory.
    pub fn write_u32(&mut self, addr: u32, value: u32)
        requires
            old(self).wf(),
            old(self).spec_contains_range(addr as int, 4),
        ensures
            final(self).wf(),
            final(self).base == old(self).base,
            final(self).bytes@.len() == old(self).bytes@.len(),
            UserMemory::spec_u32_le(final(self).spec_read(addr as int, 4)) == value,
            forall|j: int|
                0 <= j < old(self).bytes@.len() && !(addr - old(self).base <= j < addr - old(self).base
                    + 4) ==> final(self).bytes@[j] == old(self).bytes@[j],
    {
        let v0: u8 = (value % 0x100) as u8;
        let v1: u8 = ((value / 0x100) % 0x100) as u8;
        let v2: u8 = ((value / 0x1_0000) % 0x100) as u8;
        let v3: u8 = ((value / 0x100_0000) % 0x100) as u8;
        proof {
            assert(v0 as int + v1 as int * 0x100 + v2 as int * 0x1_0000 + v3 as int * 0x100_0000
                == value) by (nonlinear_arith)
                requires
                    v0 == value % 0x100,
                    v1 == (value / 0x100) % 0x100,
                    v2 == (value / 0x1_0000) % 0x100,
                    v3 == (value / 0x100_0000) % 0x100,
                    value < 0x1_0000_0000,
            ;
        }
        let mut data: Vec<u8> = Vec::new();
        data.push(v0);
        data.push(v1);
        data.push(v2);
        data.push(v3);
        self.write_bytes(addr, data.as_slice());
        proof {
            let b = self.spec_read(addr as int, 4);
            assert(b[0] == data@[0] && b[1] == data@[1] && b[2] == data@[2] && b[3] == data@[3]);
        }
    }
}

} // verus!
