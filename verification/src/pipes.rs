//! In-memory pipes.
//!
//! A pipe is a bounded byte queue shared by two local handles, one for each
//! end. Writers may put in up to the capacity; readers take bytes out in
//! first-in, first-out order. A full pipe blocks writers and an empty pipe
//! blocks readers: the caller yields and retries.

use vstd::prelude::*;

use crate::error::SystemError;
use crate::handles::LocalHandle;

verus! {

/// How many bytes a pipe can hold.
pub const PIPE_CAPACITY: usize = 0x1000;

/// One pipe: its two handles and the bytes written but not yet read.
pub struct Pipe {
    pub read_handle: LocalHandle,
    pub write_handle: LocalHandle,
    pub buffer: Vec<u8>,
}

/// What lands in the pipe when `b` is offered to a pipe holding `buf`: as
/// much of a prefix of `b` as fits.
pub open spec fn spec_pipe_write(buf: Seq<u8>, b: Seq<u8>) -> Seq<u8> {
    if b.len() <= 0x1000 - buf.len() {
        buf + b
    } else {
        buf + b.take(0x1000 - buf.len())
    }
}

/// What a read of `len` bytes takes from a pipe holding `buf`: the longest
/// prefix up to `len`.
pub open spec fn spec_pipe_read(buf: Seq<u8>, len: int) -> Seq<u8> {
    if len <= buf.len() {
        buf.take(len)
    } else {
        buf
    }
}

/// What stays behind after that read.
pub open spec fn spec_pipe_rest(buf: Seq<u8>, len: int) -> Seq<u8> {
    if len <= buf.len() {
        buf.skip(len)
    } else {
        Seq::empty()
    }
}

/// The round trip through a pipe: any byte sequence no longer than the
/// capacity, written into an empty pipe and read back whole, comes back
/// unchanged, and the pipe is empty again.
pub proof fn lemma_pipe_round_trip(b: Seq<u8>)
    requires
        b.len() <= 0x1000,
    ensures
        spec_pipe_write(Seq::empty(), b) == b,
        spec_pipe_read(spec_pipe_write(Seq::empty(), b), b.len() as int) == b,
        spec_pipe_rest(spec_pipe_write(Seq::empty(), b), b.len() as int) == Seq::<u8>::empty(),
{
    assert(spec_pipe_write(Seq::empty(), b) =~= b);
    assert(spec_pipe_read(b, b.len() as int) =~= b);
    assert(spec_pipe_rest(b, b.len() as int) =~= Seq::<u8>::empty());
}

impl Pipe {
    pub open spec fn wf(self) -> bool {
        &&& self.buffer@.len() <= 0x1000
        &&& self.read_handle.handle != self.write_handle.handle
    }
}

/// All live pipes, and the counter minting their handles.
pub struct PipeCollection {
    pub pipes: Vec<Pipe>,
    pub next_handle: u32,
}

impl PipeCollection {
    pub open spec fn view(self) -> Seq<Pipe> {
        self.pipes@
    }

    /// Pipes hold at most the capacity, and no handle names two ends.
    pub open spec fn wf(self) -> bool {
        &&& forall|i: int| 0 <= i < self.pipes@.len() ==> (#[trigger] self.pipes@[i]).wf()
        &&& forall|i: int|
            0 <= i < self.pipes@.len() ==> (#[trigger] self.pipes@[i]).read_handle.handle
                < self.next_handle && self.pipes@[i].write_handle.handle < self.next_handle
        &&& forall|i: int, j: int|
            0 <= i < j < self.pipes@.len() ==> self.pipes@[i].read_handle.handle
                != self.pipes@[j].read_handle.handle && self.pipes@[i].read_handle.handle
                != self.pipes@[j].write_handle.handle && self.pipes@[i].write_handle.handle
                != self.pipes@[j].read_handle.handle && self.pipes@[i].write_handle.handle
                != self.pipes@[j].write_handle.handle
    }

    /// The index of the pipe whose read end is `h`.
    pub open spec fn spec_find_reader(self, h: u32) -> Option<int> {
        if exists|i: int| 0 <= i < self.pipes@.len() && (#[trigger] self.pipes@[i]).read_handle.handle
            == h {
            Some(
                choose|i: int|
                    0 <= i < self.pipes@.len() && (#[trigger] self.pipes@[i]).read_handle.handle
                        == h,
            )
        } else {
            None
        }
    }

    /// The index of the pipe whose write end is `h`.
    pub open spec fn spec_find_writer(self, h: u32) -> Option<int> {
        if exists|i: int| 0 <= i < self.pipes@.len() && (#[trigger] self.pipes@[i]).write_handle.handle
            == h {
            Some(
                choose|i: int|
                    0 <= i < self.pipes@.len() && (#[trigger] self.pipes@[i]).write_handle.handle
                        == h,
            )
        } else {
            None
        }
    }

    pub fn new() -> (r: PipeCollection)
        ensures
            r.wf(),
            r@.len() == 0,
            r.next_handle == 0,
    {
        PipeCollection { pipes: Vec::new(), next_handle: 0 }
    }

    /// Create a pipe; hands back its read end and its write end, in that
    /// order.
    pub fn create(&mut self) -> (r: Result<(LocalHandle, LocalHandle), SystemError>)
        requires
            old(self).wf(),
        ensures
            final(self).wf(),
            match r {
                Ok((rd, wr)) => {
                    &&& rd.handle == old(self).next_handle
                    &&& old(self).next_handle < 0xffff_fffeu32
                    &&& wr.handle == old(self).next_handle + 1
                    &&& final(self)@.len() == old(self)@.len() + 1
                    &&& forall|i: int| 0 <= i < old(self)@.len() ==> final(self)@[i] == old(self)@[i]
                    &&& final(self)@.last().read_handle == rd
                    &&& final(self)@.last().write_handle == wr
                    &&& final(self)@.last().buffer@.len() == 0
                },
                Err(e) => {
                    &&& e == SystemError::OutOfResources
                    &&& old(self).next_handle >= 0xffff_fffeu32
                    &&& *final(self) == *old(self)
                },
            },
    {
        if self.next_handle >= 0xffff_fffe {
            return Err(SystemError::OutOfResources);
        }
        let read_handle = LocalHandle::new(self.next_handle);
        let write_handle = LocalHandle::new(self.next_handle + 1);
        self.next_handle = self.next_handle + 2;
        self.pipes.push(Pipe { read_handle, write_handle, buffer: Vec::new() });
        proof {
            assert forall|i: int, j: int|
                0 <= i < j < self.pipes@.len() implies self.pipes@[i].read_handle.handle
                != self.pipes@[j].read_handle.handle && self.pipes@[i].read_handle.handle
                != self.pipes@[j].write_handle.handle && self.pipes@[i].write_handle.handle
                != self.pipes@[j].read_handle.handle && self.pipes@[i].write_handle.handle
                != self.pipes@[j].write_handle.handle by {
                if j == self.pipes@.len() - 1 {
                    assert(self.pipes@[i] == old(self)@[i]);
                }
            }
        }
        Ok((read_handle, write_handle))
    }

    /// Find the pipe whose write end is `h`.
    fn find_writer(&self, h: LocalHandle) -> (r: Option<usize>)
        requires
            self.wf(),
        ensures
            match r {
                Some(i) => i < self@.len() && self@[i as int].write_handle.handle == h.handle
                    && Some(i as int) == self.spec_find_writer(h.handle),
                None => self.spec_find_writer(h.handle) is None,
            },
    {
        let len: usize = self.pipes.len();
        let mut i: usize = 0;
        while i < len
            invariant
                self.wf(),
                i <= len,
                len == self.pipes@.len(),
                forall|j: int|
                    0 <= j < i ==> (#[trigger] self.pipes@[j]).write_handle.handle != h.handle,
            decreases len - i,
        {
            if self.pipes[i].write_handle.handle == h.handle {
                proof {
                    let w = choose|k: int|
                        0 <= k < self.pipes@.len() && (#[trigger] self.pipes@[k]).write_handle.handle
                            == h.handle;
                    if w != i as int {
                        assert(self.pipes@[w].write_handle.handle
                            != self.pipes@[i as int].write_handle.handle);
                    }
                }
                return Some(i);
            }
            i += 1;
        }
        None
    }

    /// Find the pipe whose read end is `h`.
    fn find_reader(&self, h: LocalHandle) -> (r: Option<usize>)
        requires
            self.wf(),
        ensures
            match r {
                Some(i) => i < self@.len() && self@[i as int].read_handle.handle == h.handle
                    && Some(i as int) == self.spec_find_reader(h.handle),
                None => self.spec_find_reader(h.handle) is None,
            },
    {
        let len: usize = self.pipes.len();
        let mut i: usize = 0;
        while i < len
            invariant
                self.wf(),
                i <= len,
                len == self.pipes@.len(),
                forall|j: int|
                    0 <= j < i ==> (#[trigger] self.pipes@[j]).read_handle.handle != h.handle,
            decreases len - i,
        {
            if self.pipes[i].read_handle.handle == h.handle {
                proof {
                    let w = choose|k: int|
                        0 <= k < self.pipes@.len() && (#[trigger] self.pipes@[k]).read_handle.handle
                            == h.handle;
                    if w != i as int {
                        assert(self.pipes@[w].read_handle.handle
                            != self.pipes@[i as int].read_handle.handle);
                    }
                }
                return Some(i);
            }
            i += 1;
        }
        None
    }

    /// Write through the pipe's write end: as much of a prefix of `buffer`
    /// as fits. A full pipe blocks the writer; a handle that is no write end
    /// is refused.
    pub fn write(&mut self, handle: LocalHandle, buffer: &[u8]) -> (r: Result<usize, SystemError>)
        requires
            old(self).wf(),
        ensures
            final(self).wf(),
            final(self)@.len() == old(self)@.len(),
            final(self).next_handle == old(self).next_handle,
            match r {
                Ok(n) => {
                    let k = old(self).spec_find_writer(handle.handle)->Some_0;
                    let room = 0x1000 - old(self)@[k].buffer@.len();
                    &&& old(self).spec_find_writer(handle.handle) is Some
                    &&& n == if buffer@.len() <= room {
                        buffer@.len() as int
                    } else {
                        room
                    }
                    &&& n <= buffer@.len()
                    &&& final(self)@ == old(self)@.update(
                        k,
                        Pipe {
                            buffer: final(self)@[k].buffer,
                            ..old(self)@[k]
                        },
                    )
                    &&& final(self)@[k].buffer@ == spec_pipe_write(old(self)@[k].buffer@, buffer@)
                    &&& (buffer@.len() > 0 ==> n > 0)
                },
                Err(e) => {
                    &&& *final(self) == *old(self)
                    &&& match old(self).spec_find_writer(handle.handle) {
                        Some(k) => e == SystemError::WouldBlock && old(self)@[k].buffer@.len()
                            == 0x1000 && buffer@.len() > 0,
                        None => e == SystemError::BadHandle,
                    }
                },
            },
    {
        let index = match self.find_writer(handle) {
            Some(i) => i,
            None => {
                return Err(SystemError::BadHandle);
            },
        };
        let available: usize = PIPE_CAPACITY - self.pipes[index].buffer.len();
        if available == 0 && buffer.len() > 0 {
            return Err(SystemError::WouldBlock);
        }
        let n: usize = if buffer.len() <= available {
            buffer.len()
        } else {
            available
        };
        let p = pipe_mut(&mut self.pipes, index);
        let ghost p0 = *p;
        let mut i: usize = 0;
        while i < n
            invariant
                i <= n,
                n <= buffer@.len(),
                p.buffer@.len() == p0.buffer@.len() + i,
                p0.buffer@.len() + n <= 0x1000,
                p.buffer@ == p0.buffer@ + buffer@.take(i as int),
                *p == (Pipe { buffer: p.buffer, ..p0 }),
            decreases n - i,
        {
            let byte: u8 = buffer[i];
            p.buffer.push(byte);
            proof {
                assert(p.buffer@ =~= p0.buffer@ + buffer@.take(i + 1));
            }
            i += 1;
        }
        proof {
            assert(p.buffer@ =~= spec_pipe_write(p0.buffer@, buffer@));
        }
        Ok(n)
    }

    /// Read through the pipe's read end: the longest buffered prefix up to
    /// `len` bytes, in first-in first-out order. An empty pipe blocks the
    /// reader; a handle that is no read end is refused.
    pub fn read(&mut self, handle: LocalHandle, len: usize) -> (r: Result<Vec<u8>, SystemError>)
        requires
            old(self).wf(),
        ensures
            final(self).wf(),
            final(self)@.len() == old(self)@.len(),
            final(self).next_handle == old(self).next_handle,
            match r {
                Ok(v) => {
                    let k = old(self).spec_find_reader(handle.handle)->Some_0;
                    &&& old(self).spec_find_reader(handle.handle) is Some
                    &&& v@ == spec_pipe_read(old(self)@[k].buffer@, len as int)
                    &&& final(self)@ == old(self)@.update(
                        k,
                        Pipe {
                            buffer: final(self)@[k].buffer,
                            ..old(self)@[k]
                        },
                    )
                    &&& final(self)@[k].buffer@ == spec_pipe_rest(old(self)@[k].buffer@, len as int)
                    &&& (len > 0 ==> v@.len() > 0)
                },
                Err(e) => {
                    &&& *final(self) == *old(self)
                    &&& match old(self).spec_find_reader(handle.handle) {
                        Some(k) => e == SystemError::WouldBlock && old(self)@[k].buffer@.len() == 0
                            && len > 0,
                        None => e == SystemError::BadHandle,
                    }
                },
            },
    {
        let index = match self.find_reader(handle) {
            Some(i) => i,
            None => {
                return Err(SystemError::BadHandle);
            },
        };
        if self.pipes[index].buffer.len() == 0 && len > 0 {
            return Err(SystemError::WouldBlock);
        }
        let p = pipe_mut(&mut self.pipes, index);
        let ghost p0 = *p;
        let n: usize = if len <= p.buffer.len() {
            len
        } else {
            p.buffer.len()
        };
        let mut out: Vec<u8> = Vec::new();
        let mut i: usize = 0;
        while i < n
            invariant
                i <= n,
                *p == p0,
                n <= p.buffer@.len(),
                out@.len() == i,
                out@ == p.buffer@.take(i as int),
            decreases n - i,
        {
            let byte: u8 = p.buffer[i];
            out.push(byte);
            proof {
                assert(out@ =~= p.buffer@.take(i + 1));
            }
            i += 1;
        }
        let rest = p.buffer.split_off(n);
        p.buffer = rest;
        proof {
            assert(out@ =~= spec_pipe_read(p0.buffer@, len as int));
            assert(p.buffer@ =~= spec_pipe_rest(p0.buffer@, len as int));
        }
        Ok(out)
    }

    /// How many bytes wait in the pipe one of whose ends is `h`; the
    /// FIONREAD query reports this.
    pub fn get_available_bytes(&self, handle: LocalHandle) -> (r: Result<usize, SystemError>)
        requires
            self.wf(),
        ensures
            match r {
                Ok(n) => {
                    match self.spec_find_reader(handle.handle) {
                        Some(k) => n == self@[k].buffer@.len(),
                        None => match self.spec_find_writer(handle.handle) {
                            Some(k) => n == self@[k].buffer@.len(),
                            None => false,
                        },
                    }
                },
                Err(e) => e == SystemError::BadHandle && self.spec_find_reader(handle.handle)
                    is None && self.spec_find_writer(handle.handle) is None,
            },
    {
        match self.find_reader(handle) {
            Some(i) => Ok(self.pipes[i].buffer.len()),
            None => match self.find_writer(handle) {
                Some(i) => Ok(self.pipes[i].buffer.len()),
                None => Err(SystemError::BadHandle),
            },
        }
    }
}

/// Give out a mutable borrow of one pipe.
fn pipe_mut(v: &mut Vec<Pipe>, i: usize) -> (p: &mut Pipe)
    requires
        i < old(v)@.len(),
    ensures
        *p == old(v)@[i as int],
        final(v)@ == old(v)@.update(i as int, *final(p)),
{
    &mut v[i]
}

/// The pipe filesystem: routes the `PIPE` drive's handles into the pipe
/// collection. Opening a path fails, since named pipes do not exist; pipe
/// ends come from the pipe system call.
pub struct PipeFileSystem {
    pub collection: PipeCollection,
}

impl PipeFileSystem {
    pub open spec fn wf(self) -> bool {
        self.collection.wf()
    }

    /// Serve pipe handles out of this collection.
    pub fn new(collection: PipeCollection) -> (r: PipeFileSystem)
        ensures
            r.collection == collection,
    {
        PipeFileSystem { collection }
    }

    /// The number of bytes ready to read, stored through the caller's
    /// pointer argument: the FIONREAD query. Other commands are not
    /// implemented.
    pub fn ioctl(&mut self, handle: LocalHandle, command: u32, arg: u32) -> (r: Result<
        crate::vfs::IoctlResult,
        SystemError,
    >)
        requires
            old(self).wf(),
        ensures
            *final(self) == *old(self),
            match r {
                Ok(v) => {
                    &&& command == 0x541bu32
                    &&& match old(self).collection.spec_find_reader(handle.handle) {
                        Some(k) => v == crate::vfs::IoctlResult::StoreToArg(
                            old(self).collection@[k].buffer@.len() as u32,
                        ),
                        None => match old(self).collection.spec_find_writer(handle.handle) {
                            Some(k) => v == crate::vfs::IoctlResult::StoreToArg(
                                old(self).collection@[k].buffer@.len() as u32,
                            ),
                            None => false,
                        },
                    }
                },
                Err(e) => {
                    if command != 0x541bu32 {
                        e == SystemError::UnsupportedCommand
                    } else {
                        e == SystemError::BadHandle && old(self).collection.spec_find_reader(
                            handle.handle,
                        ) is None && old(self).collection.spec_find_writer(handle.handle) is None
                    }
                },
            },
    {
        if command != crate::vfs::FIONREAD {
            return Err(SystemError::UnsupportedCommand);
        }
        match self.collection.get_available_bytes(handle) {
            Ok(n) => {
                proof {
                    match self.collection.spec_find_reader(handle.handle) {
                        Some(k) => {
                            assert(self.collection@[k].wf());
                        },
                        None => {
                            match self.collection.spec_find_writer(handle.handle) {
                                Some(k) => {
                                    assert(self.collection@[k].wf());
                                },
                                None => (),
                            }
                        },
                    }
                }
                Ok(crate::vfs::IoctlResult::StoreToArg(n as u32))
            },
            Err(e) => Err(e),
        }
    }
}

impl crate::vfs::FileSystem for PipeFileSystem {
    open spec fn inv(&self) -> bool {
        self.wf()
    }

    /// Named pipes are not implemented: nothing can be opened by path.
    fn open(&mut self, path: &[u8]) -> Result<LocalHandle, SystemError> {
        Err(SystemError::UnsupportedCommand)
    }

    fn read(&mut self, handle: LocalHandle, len: usize) -> Result<Vec<u8>, SystemError> {
        self.collection.read(handle, len)
    }

    fn write(&mut self, handle: LocalHandle, buffer: &[u8]) -> Result<usize, SystemError> {
        self.collection.write(handle, buffer)
    }

    fn close(&mut self, handle: LocalHandle) -> Result<(), SystemError> {
        Err(SystemError::UnsupportedCommand)
    }

    fn dup(&mut self, handle: LocalHandle) -> Result<LocalHandle, SystemError> {
        Err(SystemError::UnsupportedCommand)
    }

    fn seek(&mut self, handle: LocalHandle, offset: crate::cursor::SeekMethod) -> Result<
        usize,
        SystemError,
    > {
        Err(SystemError::UnsupportedCommand)
    }

    fn open_dir(&mut self, path: &[u8]) -> Result<LocalHandle, SystemError> {
        Err(SystemError::UnsupportedCommand)
    }

    fn read_dir(&mut self, handle: LocalHandle, index: usize) -> Result<
        crate::vfs::DirEntryInfo,
        SystemError,
    > {
        Err(SystemError::UnsupportedCommand)
    }

    fn ioctl(&mut self, handle: LocalHandle, command: u32, arg: u32) -> Result<
        crate::vfs::IoctlResult,
        SystemError,
    > {
        PipeFileSystem::ioctl(self, handle, command, arg)
    }
}

} // verus!
