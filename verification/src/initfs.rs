//! The init filesystem.
//!
//! A read-only archive handed to the kernel at boot. The loader that parses
//! the on-disk format is an external collaborator; the core receives the
//! archive as a list of named files and serves opens, reads, seeks and
//! directory listings over it. Writes fail: the archive is read-only.

use vstd::prelude::*;

use crate::cursor::{spec_seek_position, SeekMethod};
use crate::error::SystemError;
use crate::handles::LocalHandle;
use crate::vfs::DirEntryInfo;

verus! {

/// One file of the boot archive. Names are stored uppercase; paths are
/// folded to upper case before they reach the filesystem.
pub struct InitFile {
    pub name: Vec<u8>,
    pub data: Vec<u8>,
}

/// One open handle into the archive: a file with a cursor, or the root
/// directory.
#[derive(Clone, Copy, Debug, PartialEq, Eq, Structural)]
pub enum InitHandle {
    File { file_index: usize, position: usize },
    Directory,
}

/// The mounted boot archive and its open handles; handle numbers are minted
/// by position, monotonically.
pub struct InitFileSystem {
    pub files: Vec<InitFile>,
    pub handles: Vec<Option<InitHandle>>,
}

impl InitFileSystem {
    /// Every open file handle points into the archive, with its cursor
    /// inside the file.
    pub open spec fn wf(self) -> bool {
        &&& self.handles@.len() < 0xffff_ffff
        &&& forall|i: int|
            0 <= i < self.files@.len() ==> (#[trigger] self.files@[i]).data@.len() <= 0xffff_ffff
        &&& forall|h: int|
            0 <= h < self.handles@.len() ==> match #[trigger] self.handles@[h] {
                Some(InitHandle::File { file_index, position }) => file_index < self.files@.len()
                    && position <= self.files@[file_index as int].data@.len(),
                _ => true,
            }
    }

    /// The first file carrying this name, if any.
    pub open spec fn spec_find_file(self, name: Seq<u8>) -> Option<int> {
        if exists|i: int| 0 <= i < self.files@.len() && (#[trigger] self.files@[i]).name@ == name {
            Some(
                choose|i: int|
                    0 <= i < self.files@.len() && (#[trigger] self.files@[i]).name@ == name
                        && forall|j: int|
                        0 <= j < i ==> (#[trigger] self.files@[j]).name@ != name,
            )
        } else {
            None
        }
    }

    /// What an open handle refers to.
    pub open spec fn spec_handle(self, h: int) -> Option<InitHandle> {
        if 0 <= h < self.handles@.len() {
            self.handles@[h]
        } else {
            None
        }
    }

    /// Mount an archive; no handles are open yet. Files fit in the 32-bit
    /// address space.
    pub fn new(files: Vec<InitFile>) -> (r: InitFileSystem)
        requires
            forall|i: int| 0 <= i < files@.len() ==> (#[trigger] files@[i]).data@.len()
                <= 0xffff_ffff,
        ensures
            r.wf(),
            r.files == files,
            r.handles@.len() == 0,
    {
        InitFileSystem { files, handles: Vec::new() }
    }

    /// Find a file of the archive by name (the path with its leading
    /// backslash already stripped).
    fn find_file(&self, name: &[u8]) -> (r: Option<usize>)
        ensures
            match r {
                Some(i) => i < self.files@.len() && self.files@[i as int].name@ == name@ && Some(
                    i as int,
                ) == self.spec_find_file(name@),
                None => self.spec_find_file(name@) is None,
            },
    {
        let len: usize = self.files.len();
        let mut i: usize = 0;
        while i < len
            invariant
                i <= len,
                len == self.files@.len(),
                forall|j: int| 0 <= j < i ==> (#[trigger] self.files@[j]).name@ != name@,
            decreases len - i,
        {
            if crate::devices::vecs_equal_slice(&self.files[i].name, name) {
                proof {
                    assert(self.files@[i as int].name@ == name@ && forall|j: int|
                        0 <= j < i ==> (#[trigger] self.files@[j]).name@ != name@);
                    let w = choose|k: int|
                        0 <= k < self.files@.len() && (#[trigger] self.files@[k]).name@ == name@
                            && forall|j: int|
                            0 <= j < k ==> (#[trigger] self.files@[j]).name@ != name@;
                    if w < i as int {
                        assert(self.files@[w].name@ != name@);
                    }
                    if w > i as int {
                        assert(self.files@[i as int].name@ != name@);
                    }
                }
                return Some(i);
            }
            i += 1;
        }
        None
    }

    /// Open a file of the archive for reading, with its cursor at the
    /// start. A path naming no file is `NotFound`.
    pub fn open(&mut self, path: &[u8]) -> (r: Result<LocalHandle, SystemError>)
        requires
            old(self).wf(),
        ensures
            final(self).wf(),
            final(self).files == old(self).files,
            match r {
                Ok(h) => {
                    let name = crate::vfs::spec_strip_backslash(path@);
                    &&& old(self).spec_find_file(name) is Some
                    &&& old(self).handles@.len() < 0xffff_fffe
                    &&& h.handle == old(self).handles@.len()
                    &&& final(self).handles@ == old(self).handles@.push(
                        Some(
                            InitHandle::File {
                                file_index: old(self).spec_find_file(name)->Some_0 as usize,
                                position: 0,
                            },
                        ),
                    )
                },
                Err(e) => {
                    &&& *final(self) == *old(self)
                    &&& e == SystemError::NotFound || e == SystemError::OutOfResources
                    &&& e == SystemError::NotFound ==> old(self).spec_find_file(
                        crate::vfs::spec_strip_backslash(path@),
                    ) is None
                    &&& e == SystemError::OutOfResources ==> old(self).handles@.len()
                        >= 0xffff_fffe && old(self).spec_find_file(
                        crate::vfs::spec_strip_backslash(path@),
                    ) is Some
                },
            },
    {
        let name: &[u8] = if path.len() > 0 && path[0] == 0x5c {
            path.split_at(1).1
        } else {
            path
        };
        proof {
            assert(name@ =~= crate::vfs::spec_strip_backslash(path@));
        }
        let index = match self.find_file(name) {
            Some(i) => i,
            None => {
                return Err(SystemError::NotFound);
            },
        };
        if self.handles.len() >= 0xffff_fffeusize {
            return Err(SystemError::OutOfResources);
        }
        let handle: u32 = self.handles.len() as u32;
        self.handles.push(Some(InitHandle::File { file_index: index, position: 0 }));
        Ok(LocalHandle::new(handle))
    }

    /// Read from an open file handle: the bytes at its cursor, up to `len`,
    /// and move the cursor past them.
    pub fn read(&mut self, handle: LocalHandle, len: usize) -> (r: Result<Vec<u8>, SystemError>)
        requires
            old(self).wf(),
        ensures
            final(self).wf(),
            final(self).files == old(self).files,
            match r {
                Ok(v) => {
                    match old(self).spec_handle(handle.handle as int) {
                        Some(InitHandle::File { file_index, position }) => {
                            let data = old(self).files@[file_index as int].data@;
                            let n = if len <= data.len() - position {
                                len as int
                            } else {
                                data.len() - position
                            };
                            &&& v@ == data.subrange(position as int, position + n)
                            &&& final(self).handles@ == old(self).handles@.update(
                                handle.handle as int,
                                Some(
                                    InitHandle::File {
                                        file_index,
                                        position: (position + n) as usize,
                                    },
                                ),
                            )
                        },
                        _ => false,
                    }
                },
                Err(e) => {
                    &&& e == SystemError::BadHandle
                    &&& !(old(self).spec_handle(handle.handle as int) is Some
                        && old(self).spec_handle(handle.handle as int)->Some_0 is File)
                    &&& *final(self) == *old(self)
                },
            },
    {
        let index: usize = handle.as_u32() as usize;
        if index >= self.handles.len() {
            return Err(SystemError::BadHandle);
        }
        let (file_index, position): (usize, usize) = match self.handles[index] {
            Some(InitHandle::File { file_index, position }) => (file_index, position),
            _ => {
                return Err(SystemError::BadHandle);
            },
        };
        let data_len: usize = self.files[file_index].data.len();
        let n: usize = if len <= data_len - position {
            len
        } else {
            data_len - position
        };
        let mut out: Vec<u8> = Vec::new();
        let mut i: usize = 0;
        while i < n
            invariant
                self.wf(),
                i <= n,
                file_index < self.files@.len(),
                position + n <= self.files@[file_index as int].data@.len(),
                out@.len() == i,
                out@ == self.files@[file_index as int].data@.subrange(
                    position as int,
                    position + i,
                ),
            decreases n - i,
        {
            let byte: u8 = self.files[file_index].data[position + i];
            out.push(byte);
            proof {
                assert(out@ =~= self.files@[file_index as int].data@.subrange(
                    position as int,
                    position + i + 1,
                ));
            }
            i += 1;
        }
        self.handles.set(index, Some(InitHandle::File { file_index, position: position + n }));
        Ok(out)
    }

    /// The archive is read-only: every write fails.
    pub fn write(&mut self, handle: LocalHandle, buffer: &[u8]) -> (r: Result<usize, SystemError>)
        ensures
            *final(self) == *old(self),
            r == Err::<usize, SystemError>(SystemError::NoPermission),
    {
        Err(SystemError::NoPermission)
    }

    /// Move an open file handle's cursor; the new position is clamped to
    /// the file and handed back.
    pub fn seek(&mut self, handle: LocalHandle, offset: SeekMethod) -> (r: Result<
        usize,
        SystemError,
    >)
        requires
            old(self).wf(),
        ensures
            final(self).wf(),
            final(self).files == old(self).files,
            match r {
                Ok(pos) => {
                    match old(self).spec_handle(handle.handle as int) {
                        Some(InitHandle::File { file_index, position }) => {
                            let size = old(self).files@[file_index as int].data@.len() as int;
                            &&& pos == spec_seek_position(position as int, size, offset)
                            &&& final(self).handles@ == old(self).handles@.update(
                                handle.handle as int,
                                Some(InitHandle::File { file_index, position: pos }),
                            )
                        },
                        _ => false,
                    }
                },
                Err(e) => {
                    &&& e == SystemError::BadHandle
                    &&& !(old(self).spec_handle(handle.handle as int) is Some
                        && old(self).spec_handle(handle.handle as int)->Some_0 is File)
                    &&& *final(self) == *old(self)
                },
            },
    {
        let index: usize = handle.as_u32() as usize;
        if index >= self.handles.len() {
            return Err(SystemError::BadHandle);
        }
        let (file_index, position): (usize, usize) = match self.handles[index] {
            Some(InitHandle::File { file_index, position }) => (file_index, position),
            _ => {
                return Err(SystemError::BadHandle);
            },
        };
        let size: usize = self.files[file_index].data.len();
        let target: i64 = match offset {
            SeekMethod::Absolute(pos) => {
                if pos > 0x7fff_ffff_ffff_ffffu64 {
                    0x7fff_ffff_ffff_ffffi64
                } else {
                    pos as i64
                }
            },
            SeekMethod::Relative(delta) => {
                let cur: i64 = position as i64;
                if delta > 0x0100_0000_0000_0000i64 {
                    0x0100_0000_0000_0000i64
                } else {
                    cur + delta
                }
            },
            SeekMethod::FromEnd(delta) => {
                let end: i64 = size as i64;
                if delta > 0x0100_0000_0000_0000i64 {
                    0x0100_0000_0000_0000i64
                } else {
                    end + delta
                }
            },
        };
        let new_pos: usize = if target < 0 {
            0
        } else if target > size as i64 {
            size
        } else {
            target as usize
        };
        self.handles.set(index, Some(InitHandle::File { file_index, position: new_pos }));
        Ok(new_pos)
    }

    /// Drop an open handle.
    pub fn close(&mut self, handle: LocalHandle) -> (r: Result<(), SystemError>)
        requires
            old(self).wf(),
        ensures
            final(self).wf(),
            final(self).files == old(self).files,
            match r {
                Ok(()) => {
                    &&& old(self).spec_handle(handle.handle as int) is Some
                    &&& final(self).handles@ == old(self).handles@.update(
                        handle.handle as int,
                        None,
                    )
                },
                Err(e) => {
                    &&& e == SystemError::BadHandle
                    &&& old(self).spec_handle(handle.handle as int) is None
                    &&& *final(self) == *old(self)
                },
            },
    {
        let index: usize = handle.as_u32() as usize;
        if index >= self.handles.len() {
            return Err(SystemError::BadHandle);
        }
        if self.handles[index].is_none() {
            return Err(SystemError::BadHandle);
        }
        self.handles.set(index, None);
        Ok(())
    }

    /// A second handle to the same file, sharing the original's current
    /// cursor position at the time of the call.
    pub fn dup(&mut self, handle: LocalHandle) -> (r: Result<LocalHandle, SystemError>)
        requires
            old(self).wf(),
        ensures
            final(self).wf(),
            final(self).files == old(self).files,
            match r {
                Ok(h) => {
                    &&& old(self).spec_handle(handle.handle as int) is Some
                    &&& old(self).handles@.len() < 0xffff_fffe
                    &&& h.handle == old(self).handles@.len()
                    &&& final(self).handles@ == old(self).handles@.push(
                        old(self).handles@[handle.handle as int],
                    )
                },
                Err(e) => {
                    &&& *final(self) == *old(self)
                    &&& e == SystemError::BadHandle ==> old(self).spec_handle(
                        handle.handle as int,
                    ) is None
                    &&& e == SystemError::OutOfResources ==> old(self).handles@.len()
                        >= 0xffff_fffe && old(self).spec_handle(handle.handle as int) is Some
                    &&& e == SystemError::BadHandle || e == SystemError::OutOfResources
                },
            },
    {
        let index: usize = handle.as_u32() as usize;
        if index >= self.handles.len() {
            return Err(SystemError::BadHandle);
        }
        let entry: Option<InitHandle> = self.handles[index];
        if entry.is_none() {
            return Err(SystemError::BadHandle);
        }
        if self.handles.len() >= 0xffff_fffeusize {
            return Err(SystemError::OutOfResources);
        }
        let new_handle: u32 = self.handles.len() as u32;
        self.handles.push(entry);
        Ok(LocalHandle::new(new_handle))
    }

    /// Open the archive's root directory for listing. The archive is flat:
    /// only the root (an empty path or a lone backslash) exists.
    pub fn open_dir(&mut self, path: &[u8]) -> (r: Result<LocalHandle, SystemError>)
        requires
            old(self).wf(),
        ensures
            final(self).wf(),
            final(self).files == old(self).files,
            match r {
                Ok(h) => {
                    &&& crate::vfs::spec_strip_backslash(path@).len() == 0
                    &&& h.handle == old(self).handles@.len()
                    &&& final(self).handles@ == old(self).handles@.push(
                        Some(InitHandle::Directory),
                    )
                },
                Err(e) => {
                    &&& *final(self) == *old(self)
                    &&& e == SystemError::NotFound ==> crate::vfs::spec_strip_backslash(
                        path@,
                    ).len() > 0
                    &&& e == SystemError::NotFound || e == SystemError::OutOfResources
                },
            },
    {
        let is_root: bool = path.len() == 0 || (path.len() == 1 && path[0] == 0x5c);
        if !is_root {
            proof {
                if path@.len() == 1 && path@[0] == 0x5cu8 {
                    assert(false);
                }
                assert(crate::vfs::spec_strip_backslash(path@).len() > 0);
            }
            return Err(SystemError::NotFound);
        }
        if self.handles.len() >= 0xffff_fffeusize {
            return Err(SystemError::OutOfResources);
        }
        let handle: u32 = self.handles.len() as u32;
        self.handles.push(Some(InitHandle::Directory));
        proof {
            assert(crate::vfs::spec_strip_backslash(path@).len() == 0);
        }
        Ok(LocalHandle::new(handle))
    }

    /// List one entry of an open directory: the `index`-th file of the
    /// archive, with its name and size.
    pub fn read_dir(&mut self, handle: LocalHandle, index: usize) -> (r: Result<
        DirEntryInfo,
        SystemError,
    >)
        requires
            old(self).wf(),
        ensures
            *final(self) == *old(self),
            match r {
                Ok(info) => {
                    &&& old(self).spec_handle(handle.handle as int) == Some(InitHandle::Directory)
                    &&& index < old(self).files@.len()
                    &&& info.name@ == old(self).files@[index as int].name@
                    &&& info.byte_size == old(self).files@[index as int].data@.len()
                },
                Err(e) => {
                    &&& e == SystemError::BadHandle ==> old(self).spec_handle(
                        handle.handle as int,
                    ) != Some(InitHandle::Directory)
                    &&& e == SystemError::NotFound ==> index >= old(self).files@.len()
                    &&& e == SystemError::BadHandle || e == SystemError::NotFound
                },
            },
    {
        let h: usize = handle.as_u32() as usize;
        if h >= self.handles.len() {
            return Err(SystemError::BadHandle);
        }
        match self.handles[h] {
            Some(InitHandle::Directory) => (),
            _ => {
                return Err(SystemError::BadHandle);
            },
        }
        if index >= self.files.len() {
            return Err(SystemError::NotFound);
        }
        let name = self.files[index].name.clone();
        let byte_size = self.files[index].data.len();
        proof {
            assert(name@ == self.files@[index as int].name@);
        }
        Ok(DirEntryInfo { name, byte_size })
    }
}

impl crate::vfs::FileSystem for InitFileSystem {
    open spec fn inv(&self) -> bool {
        self.wf()
    }

    fn open(&mut self, path: &[u8]) -> Result<LocalHandle, SystemError> {
        InitFileSystem::open(self, path)
    }

    fn read(&mut self, handle: LocalHandle, len: usize) -> Result<Vec<u8>, SystemError> {
        InitFileSystem::read(self, handle, len)
    }

    fn write(&mut self, handle: LocalHandle, buffer: &[u8]) -> Result<usize, SystemError> {
        InitFileSystem::write(self, handle, buffer)
    }

    fn close(&mut self, handle: LocalHandle) -> Result<(), SystemError> {
        InitFileSystem::close(self, handle)
    }

    fn dup(&mut self, handle: LocalHandle) -> Result<LocalHandle, SystemError> {
        InitFileSystem::dup(self, handle)
    }

    fn seek(&mut self, handle: LocalHandle, offset: SeekMethod) -> Result<usize, SystemError> {
        InitFileSystem::seek(self, handle, offset)
    }

    fn open_dir(&mut self, path: &[u8]) -> Result<LocalHandle, SystemError> {
        InitFileSystem::open_dir(self, path)
    }

    fn read_dir(&mut self, handle: LocalHandle, index: usize) -> Result<
        DirEntryInfo,
        SystemError,
    > {
        InitFileSystem::read_dir(self, handle, index)
    }
}

} // verus!
