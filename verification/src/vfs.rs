//! The virtual file system.
//!
//! Drives carry a short uppercase name and a mounted filesystem; the mount
//! table routes every file operation to the filesystem behind the drive.
//! Paths have the form `DRIVE:\component\component` and are read
//! case-insensitively; the leading backslash of the local part may be
//! omitted.

use vstd::prelude::*;

use crate::devfs::DevFileSystem;
use crate::error::SystemError;
use crate::handles::LocalHandle;
use crate::cursor::SeekMethod;
use crate::initfs::{InitFileSystem, InitHandle};
use crate::pipes::PipeFileSystem;

verus! {

/// The FIONREAD ioctl: how many bytes are ready to read.
pub const FIONREAD: u32 = 0x541b;

/// What an ioctl hands back: a plain value for register A, or a value the
/// dispatcher must store through the caller's pointer argument.
#[derive(Clone, Copy, Debug, PartialEq, Eq, Structural)]
pub enum IoctlResult {
    Value(u32),
    StoreToArg(u32),
}

/// One directory entry as handed to user mode.
#[derive(Debug)]
pub struct DirEntryInfo {
    pub name: Vec<u8>,
    pub byte_size: usize,
}

/// How a mounted filesystem is driven.
#[derive(Clone, Copy, Debug, PartialEq, Eq, Structural)]
pub enum FileSystemCategory {
    KernelSync,
    KernelAsync,
}

/// The capability set every mounted filesystem supports. Paths arrive as
/// bytes, already folded to upper case, without the drive prefix.
pub trait FileSystem {
    /// The filesystem's own invariant; every operation preserves it.
    spec fn inv(&self) -> bool;

    fn open(&mut self, path: &[u8]) -> (r: Result<LocalHandle, SystemError>)
        requires
            old(self).inv(),
        ensures
            final(self).inv(),
    ;

    fn read(&mut self, handle: LocalHandle, len: usize) -> (r: Result<Vec<u8>, SystemError>)
        requires
            old(self).inv(),
        ensures
            final(self).inv(),
    ;

    fn write(&mut self, handle: LocalHandle, buffer: &[u8]) -> (r: Result<usize, SystemError>)
        requires
            old(self).inv(),
        ensures
            final(self).inv(),
    ;

    fn close(&mut self, handle: LocalHandle) -> (r: Result<(), SystemError>)
        requires
            old(self).inv(),
        ensures
            final(self).inv(),
    ;

    fn dup(&mut self, handle: LocalHandle) -> (r: Result<LocalHandle, SystemError>)
        requires
            old(self).inv(),
        ensures
            final(self).inv(),
    ;

    fn seek(&mut self, handle: LocalHandle, offset: SeekMethod) -> (r: Result<usize, SystemError>)
        requires
            old(self).inv(),
        ensures
            final(self).inv(),
    ;

    fn open_dir(&mut self, path: &[u8]) -> (r: Result<LocalHandle, SystemError>)
        requires
            old(self).inv(),
        ensures
            final(self).inv(),
    ;

    fn read_dir(&mut self, handle: LocalHandle, index: usize) -> (r: Result<
        DirEntryInfo,
        SystemError,
    >)
        requires
            old(self).inv(),
        ensures
            final(self).inv(),
    ;

    fn ioctl(&mut self, handle: LocalHandle, command: u32, arg: u32) -> (r: Result<
        IoctlResult,
        SystemError,
    >)
        requires
            old(self).inv(),
        ensures
            final(self).inv(),
    {
        Err(SystemError::UnsupportedCommand)
    }
}

/// A path with one leading backslash removed.
pub open spec fn spec_strip_backslash(path: Seq<u8>) -> Seq<u8> {
    if path.len() > 0 && path[0] == 0x5cu8 {
        path.skip(1)
    } else {
        path
    }
}

/// ASCII upper-case folding of one byte.
pub open spec fn spec_upper_byte(b: u8) -> u8 {
    if 0x61 <= b <= 0x7a {
        (b - 0x20) as u8
    } else {
        b
    }
}

/// ASCII upper-case folding of a whole path: paths are case-insensitive.
pub open spec fn spec_to_upper(s: Seq<u8>) -> Seq<u8> {
    Seq::new(s.len(), |i: int| spec_upper_byte(s[i]))
}

/// Fold a path to upper case.
pub fn to_upper(s: &[u8]) -> (r: Vec<u8>)
    ensures
        r@ == spec_to_upper(s@),
{
    let len: usize = s.len();
    let mut out: Vec<u8> = Vec::new();
    let mut i: usize = 0;
    while i < len
        invariant
            i <= len,
            len == s@.len(),
            out@.len() == i,
            forall|j: int| 0 <= j < i ==> out@[j] == spec_upper_byte(s@[j]),
        decreases len - i,
    {
        let b: u8 = s[i];
        if 0x61 <= b && b <= 0x7a {
            out.push(b - 0x20);
        } else {
            out.push(b);
        }
        i += 1;
    }
    proof {
        assert(out@ =~= spec_to_upper(s@));
    }
    out
}

/// Where the drive prefix of an upper-cased path ends: the index of its
/// first colon, when that leaves a name of one to four bytes.
pub open spec fn spec_colon_split(path: Seq<u8>) -> Option<int> {
    if exists|i: int| 0 <= i < path.len() && path[i] == 0x3au8 {
        let ci = choose|i: int|
            0 <= i < path.len() && path[i] == 0x3au8 && forall|j: int|
                0 <= j < i ==> path[j] != 0x3au8;
        if 1 <= ci <= 4 {
            Some(ci)
        } else {
            None
        }
    } else {
        None
    }
}

/// Split an upper-cased path into its drive name and the local part.
pub fn split_drive(path: &[u8]) -> (r: Option<(Vec<u8>, Vec<u8>)>)
    ensures
        match r {
            Some((drive, rest)) => {
                let ci = spec_colon_split(path@)->Some_0;
                &&& spec_colon_split(path@) is Some
                &&& drive@ == path@.take(ci)
                &&& rest@ == path@.skip(ci + 1)
            },
            None => spec_colon_split(path@) is None,
        },
{
    let len: usize = path.len();
    let mut i: usize = 0;
    while i < len
        invariant
            i <= len,
            len == path@.len(),
            forall|j: int| 0 <= j < i ==> path@[j] != 0x3au8,
        decreases len - i,
    {
        if path[i] == 0x3a {
            proof {
                let w = choose|k: int|
                    0 <= k < path@.len() && path@[k] == 0x3au8 && forall|j: int|
                        0 <= j < k ==> path@[j] != 0x3au8;
                if w < i as int {
                    assert(path@[w] != 0x3au8);
                }
                if w > i as int {
                    assert(path@[i as int] != 0x3au8);
                }
            }
            if i < 1 || i > 4 {
                return None;
            }
            let mut drive: Vec<u8> = Vec::new();
            let mut j: usize = 0;
            while j < i
                invariant
                    j <= i,
                    i < len,
                    len == path@.len(),
                    drive@.len() == j,
                    forall|k: int| 0 <= k < j ==> drive@[k] == path@[k],
                decreases i - j,
            {
                drive.push(path[j]);
                j += 1;
            }
            let mut rest: Vec<u8> = Vec::new();
            let mut k: usize = i + 1;
            while k < len
                invariant
                    i + 1 <= k <= len,
                    i < len,
                    len == path@.len(),
                    rest@.len() == k - i - 1,
                    forall|m: int| 0 <= m < k - i - 1 ==> rest@[m] == path@[m + i + 1],
                decreases len - k,
            {
                rest.push(path[k]);
                k += 1;
            }
            proof {
                assert(drive@ =~= path@.take(i as int));
                assert(rest@ =~= path@.skip(i + 1));
            }
            return Some((drive, rest));
        }
        i += 1;
    }
    None
}

/// What is mounted behind one drive.
pub enum FileSystemKind {
    Dev(DevFileSystem),
    Init(InitFileSystem),
    Pipe(PipeFileSystem),
}

impl FileSystemKind {
    pub open spec fn wf(self) -> bool {
        match self {
            FileSystemKind::Dev(fs) => fs.wf(),
            FileSystemKind::Init(fs) => fs.wf(),
            FileSystemKind::Pipe(fs) => fs.wf(),
        }
    }
}

impl FileSystemKind {
    /// What a successful read through the mounted filesystem means: the
    /// device driver's bytes, the archive bytes at the handle's cursor (which
    /// advances past them), or the buffered prefix of a pipe (which is
    /// consumed).
    pub open spec fn spec_read_ok(pre: FileSystemKind, post: FileSystemKind, h: u32, len: nat, v: Seq<u8>) -> bool {
        match pre {
            FileSystemKind::Dev(fs) => {
                &&& post == pre
                &&& Some(v) == fs.spec_read_result(h as int, len as nat)
            },
            FileSystemKind::Init(fs) => match fs.spec_handle(h as int) {
                Some(InitHandle::File { file_index, position }) => {
                    let data = fs.files@[file_index as int].data@;
                    let n = if len <= data.len() - position {
                        len as int
                    } else {
                        data.len() - position
                    };
                    &&& v == data.subrange(position as int, position + n)
                    &&& post matches FileSystemKind::Init(pfs) && pfs.files == fs.files
                        && pfs.handles@ == fs.handles@.update(
                        h as int,
                        Some(
                            InitHandle::File { file_index, position: (position + n) as usize },
                        ),
                    )
                },
                _ => false,
            },
            FileSystemKind::Pipe(fs) => {
                let pk = fs.collection.spec_find_reader(h)->Some_0;
                &&& fs.collection.spec_find_reader(h) is Some
                &&& v == crate::pipes::spec_pipe_read(fs.collection@[pk].buffer@, len as int)
                &&& (len > 0 ==> v.len() > 0)
                &&& post matches FileSystemKind::Pipe(pfs) && pfs.collection.next_handle
                    == fs.collection.next_handle && pfs.collection@ == fs.collection@.update(
                    pk,
                    crate::pipes::Pipe {
                        buffer: pfs.collection@[pk].buffer,
                        ..fs.collection@[pk]
                    },
                ) && pfs.collection@[pk].buffer@ == crate::pipes::spec_pipe_rest(
                    fs.collection@[pk].buffer@,
                    len as int,
                )
            },
        }
    }

    /// Why a read through the mounted filesystem failed; nothing changes.
    pub open spec fn spec_read_err(pre: FileSystemKind, h: u32, len: nat, e: SystemError) -> bool {
        match pre {
            FileSystemKind::Dev(fs) => e == SystemError::BadHandle && fs.spec_device_for_handle(
                h as int,
            ) is None,
            FileSystemKind::Init(fs) => e == SystemError::BadHandle && !(fs.spec_handle(h as int)
                is Some && fs.spec_handle(h as int)->Some_0 is File),
            FileSystemKind::Pipe(fs) => match fs.collection.spec_find_reader(h) {
                Some(pk) => e == SystemError::WouldBlock && fs.collection@[pk].buffer@.len() == 0
                    && len > 0,
                None => e == SystemError::BadHandle,
            },
        }
    }

    /// Read through the mounted filesystem.
    pub fn fs_read(&mut self, handle: LocalHandle, len: usize) -> (r: Result<Vec<u8>, SystemError>)
        requires
            old(self).wf(),
        ensures
            final(self).wf(),
            match r {
                Ok(v) => FileSystemKind::spec_read_ok(
                    *old(self),
                    *final(self),
                    handle.handle,
                    len as nat,
                    v@,
                ),
                Err(e) => *final(self) == *old(self) && FileSystemKind::spec_read_err(
                    *old(self),
                    handle.handle,
                    len as nat,
                    e,
                ),
            },
    {
        match self {
            FileSystemKind::Dev(fs) => fs.read(handle, len),
            FileSystemKind::Init(fs) => fs.read(handle, len),
            FileSystemKind::Pipe(fs) => fs.collection.read(handle, len),
        }
    }

    /// What a successful write through the mounted filesystem means: the
    /// device accepted the whole buffer, or the pipe took the longest prefix
    /// that fits. The archive is read-only, so a write never succeeds there.
    pub open spec fn spec_write_ok(pre: FileSystemKind, post: FileSystemKind, h: u32, data: Seq<u8>, n: nat) -> bool {
        match pre {
            FileSystemKind::Dev(fs) => {
                &&& post == pre
                &&& fs.spec_device_for_handle(h as int) is Some
                &&& n == data.len()
            },
            FileSystemKind::Init(fs) => false,
            FileSystemKind::Pipe(fs) => {
                let pk = fs.collection.spec_find_writer(h)->Some_0;
                let room = 0x1000 - fs.collection@[pk].buffer@.len();
                &&& fs.collection.spec_find_writer(h) is Some
                &&& n == if data.len() <= room {
                    data.len() as int
                } else {
                    room
                }
                &&& n <= data.len()
                &&& (data.len() > 0 ==> n > 0)
                &&& post matches FileSystemKind::Pipe(pfs) && pfs.collection.next_handle
                    == fs.collection.next_handle && pfs.collection@ == fs.collection@.update(
                    pk,
                    crate::pipes::Pipe {
                        buffer: pfs.collection@[pk].buffer,
                        ..fs.collection@[pk]
                    },
                ) && pfs.collection@[pk].buffer@ == crate::pipes::spec_pipe_write(
                    fs.collection@[pk].buffer@,
                    data,
                )
            },
        }
    }

    /// Why a write through the mounted filesystem failed; nothing changes.
    pub open spec fn spec_write_err(pre: FileSystemKind, h: u32, data: Seq<u8>, e: SystemError) -> bool {
        match pre {
            FileSystemKind::Dev(fs) => e == SystemError::BadHandle && fs.spec_device_for_handle(
                h as int,
            ) is None,
            FileSystemKind::Init(fs) => e == SystemError::NoPermission,
            FileSystemKind::Pipe(fs) => match fs.collection.spec_find_writer(h) {
                Some(pk) => e == SystemError::WouldBlock && fs.collection@[pk].buffer@.len()
                    == 0x1000 && data.len() > 0,
                None => e == SystemError::BadHandle,
            },
        }
    }

    /// Write through the mounted filesystem.
    pub fn fs_write(&mut self, handle: LocalHandle, buffer: &[u8]) -> (r: Result<
        usize,
        SystemError,
    >)
        requires
            old(self).wf(),
        ensures
            final(self).wf(),
            match r {
                Ok(n) => FileSystemKind::spec_write_ok(
                    *old(self),
                    *final(self),
                    handle.handle,
                    buffer@,
                    n as nat,
                ),
                Err(e) => *final(self) == *old(self) && FileSystemKind::spec_write_err(
                    *old(self),
                    handle.handle,
                    buffer@,
                    e,
                ),
            },
    {
        match self {
            FileSystemKind::Dev(fs) => fs.write(handle, buffer),
            FileSystemKind::Init(fs) => fs.write(handle, buffer),
            FileSystemKind::Pipe(fs) => fs.collection.write(handle, buffer),
        }
    }

    /// Release a local handle of the mounted filesystem. Pipe ends carry no
    /// per-filesystem state to release, so the pipe filesystem reports
    /// nothing to do; the per-process handle is gone either way.
    pub fn fs_close(&mut self, handle: LocalHandle) -> (r: Result<(), SystemError>)
        requires
            old(self).wf(),
        ensures
            final(self).wf(),
            match *old(self) {
                FileSystemKind::Dev(fs) => match r {
                    Ok(()) => fs.spec_device_for_handle(handle.handle as int) is Some && (
                    *final(self) matches FileSystemKind::Dev(pfs) && pfs.registry == fs.registry
                        && pfs.handle_to_device@ == fs.handle_to_device@.update(
                        handle.handle as int,
                        None,
                    )),
                    Err(e) => e == SystemError::BadHandle && *final(self) == *old(self)
                        && fs.spec_device_for_handle(handle.handle as int) is None,
                },
                FileSystemKind::Init(fs) => match r {
                    Ok(()) => fs.spec_handle(handle.handle as int) is Some && (*final(self) matches
                        FileSystemKind::Init(pfs) && pfs.files == fs.files && pfs.handles@
                        == fs.handles@.update(handle.handle as int, None)),
                    Err(e) => e == SystemError::BadHandle && *final(self) == *old(self)
                        && fs.spec_handle(handle.handle as int) is None,
                },
                FileSystemKind::Pipe(_) => r == Err::<(), SystemError>(
                    SystemError::UnsupportedCommand,
                ) && *final(self) == *old(self),
            },
    {
        match self {
            FileSystemKind::Dev(fs) => fs.close(handle),
            FileSystemKind::Init(fs) => fs.close(handle),
            FileSystemKind::Pipe(_) => Err(SystemError::UnsupportedCommand),
        }
    }

    /// A second local handle naming the same resource: the same device, or
    /// the same archive file sharing the cursor position at the time of the
    /// call. Pipe ends cannot be duplicated at the filesystem level.
    pub fn fs_dup(&mut self, handle: LocalHandle) -> (r: Result<LocalHandle, SystemError>)
        requires
            old(self).wf(),
        ensures
            final(self).wf(),
            match *old(self) {
                FileSystemKind::Dev(fs) => match r {
                    Ok(h) => {
                        &&& *final(self) matches FileSystemKind::Dev(pfs)
                            && pfs.registry == fs.registry
                            && pfs.spec_device_for_handle(h.handle as int)
                            == fs.spec_device_for_handle(handle.handle as int)
                            && pfs.spec_device_for_handle(handle.handle as int)
                            == fs.spec_device_for_handle(handle.handle as int)
                        &&& fs.spec_device_for_handle(handle.handle as int) is Some
                        &&& fs.handle_allocator.next < 0xffff_fffeu32
                    },
                    Err(e) => {
                        &&& *final(self) == *old(self)
                        &&& e == SystemError::BadHandle ==> fs.spec_device_for_handle(
                            handle.handle as int,
                        ) is None
                        &&& e == SystemError::OutOfResources ==> fs.handle_allocator.next
                            >= 0xffff_fffeu32 && fs.spec_device_for_handle(
                            handle.handle as int,
                        ) is Some
                        &&& (e == SystemError::BadHandle || e == SystemError::OutOfResources)
                    },
                },
                FileSystemKind::Init(fs) => match r {
                    Ok(h) => *final(self) matches FileSystemKind::Init(pfs) && pfs.files
                        == fs.files && fs.spec_handle(handle.handle as int) is Some
                        && fs.handles@.len() < 0xffff_fffe && pfs.spec_handle(h.handle as int)
                        == fs.spec_handle(handle.handle as int) && pfs.spec_handle(
                        handle.handle as int,
                    ) == fs.spec_handle(handle.handle as int),
                    Err(e) => {
                        &&& *final(self) == *old(self)
                        &&& e == SystemError::BadHandle ==> fs.spec_handle(
                            handle.handle as int,
                        ) is None
                        &&& e == SystemError::OutOfResources ==> fs.handles@.len()
                            >= 0xffff_fffe && fs.spec_handle(handle.handle as int) is Some
                        &&& (e == SystemError::BadHandle || e == SystemError::OutOfResources)
                    },
                },
                FileSystemKind::Pipe(_) => r == Err::<LocalHandle, SystemError>(
                    SystemError::UnsupportedCommand,
                ) && *final(self) == *old(self),
            },
    {
        match self {
            FileSystemKind::Dev(fs) => fs.dup(handle),
            FileSystemKind::Init(fs) => {
                let r = fs.dup(handle);
                proof {
                    if r is Ok {
                        assert(fs.spec_handle(r->Ok_0.handle as int) == old(
                            self,
                        )->Init_0.spec_handle(handle.handle as int));
                    }
                }
                r
            },
            FileSystemKind::Pipe(_) => Err(SystemError::UnsupportedCommand),
        }
    }

    /// What an ioctl on the mounted filesystem decides: the device
    /// filesystem answers the identify query (command 0) with the device
    /// number, the pipe filesystem answers FIONREAD with the count of
    /// buffered bytes to store through the caller's pointer, and everything
    /// else is not implemented.
    pub open spec fn spec_ioctl_outcome(fs: FileSystemKind, h: u32, command: u32) -> Result<
        IoctlResult,
        SystemError,
    > {
        match fs {
            FileSystemKind::Dev(d) => if command != 0 {
                Err(SystemError::UnsupportedCommand)
            } else {
                match d.spec_device_for_handle(h as int) {
                    Some(n) => Ok(IoctlResult::Value(n as u32)),
                    None => Err(SystemError::BadHandle),
                }
            },
            FileSystemKind::Init(_) => Err(SystemError::UnsupportedCommand),
            FileSystemKind::Pipe(p) => if command != 0x541bu32 {
                Err(SystemError::UnsupportedCommand)
            } else {
                match p.collection.spec_find_reader(h) {
                    Some(pk) => Ok(
                        IoctlResult::StoreToArg(p.collection@[pk].buffer@.len() as u32),
                    ),
                    None => match p.collection.spec_find_writer(h) {
                        Some(pk) => Ok(
                            IoctlResult::StoreToArg(p.collection@[pk].buffer@.len() as u32),
                        ),
                        None => Err(SystemError::BadHandle),
                    },
                }
            },
        }
    }

    /// An ioctl on the mounted filesystem: the device filesystem answers the
    /// identify query with the device number, and the pipe filesystem
    /// answers FIONREAD with the count of buffered bytes, to be stored
    /// through the caller's pointer.
    pub fn fs_ioctl(&mut self, handle: LocalHandle, command: u32, arg: u32) -> (r: Result<
        IoctlResult,
        SystemError,
    >)
        requires
            old(self).wf(),
        ensures
            final(self).wf(),
            *final(self) == *old(self),
            r == FileSystemKind::spec_ioctl_outcome(*old(self), handle.handle, command),
    {
        match self {
            FileSystemKind::Dev(fs) => fs.ioctl(handle, command, arg),
            FileSystemKind::Init(_) => Err(SystemError::UnsupportedCommand),
            FileSystemKind::Pipe(fs) => fs.ioctl(handle, command, arg),
        }
    }
}

/// One mounted drive: a 1-4 byte uppercase tag, its category, and the
/// filesystem behind it.
pub struct Drive {
    pub name: Vec<u8>,
    pub category: FileSystemCategory,
    pub fs: FileSystemKind,
}

/// The mount table: drive names to filesystems.
pub struct DriveMap {
    pub drives: Vec<Drive>,
}

impl DriveMap {
    pub open spec fn view(self) -> Seq<Drive> {
        self.drives@
    }

    /// Drive names are short and unique, and every filesystem keeps its own
    /// invariant.
    pub open spec fn wf(self) -> bool {
        &&& forall|i: int|
            0 <= i < self.drives@.len() ==> 1 <= (#[trigger] self.drives@[i]).name@.len() <= 4
        &&& forall|i: int, j: int|
            0 <= i < j < self.drives@.len() ==> self.drives@[i].name@ != self.drives@[j].name@
        &&& forall|i: int| 0 <= i < self.drives@.len() ==> (#[trigger] self.drives@[i]).fs.wf()
    }

    /// The number of the drive carrying this name, if mounted.
    pub open spec fn spec_find_drive(self, name: Seq<u8>) -> Option<int> {
        if exists|i: int| 0 <= i < self.drives@.len() && (#[trigger] self.drives@[i]).name@ == name {
            Some(
                choose|i: int|
                    0 <= i < self.drives@.len() && (#[trigger] self.drives@[i]).name@ == name,
            )
        } else {
            None
        }
    }

    pub fn new() -> (r: DriveMap)
        ensures
            r.wf(),
            r@.len() == 0,
    {
        DriveMap { drives: Vec::new() }
    }

    /// Mount a filesystem under a drive name. A name already mounted, or
    /// not 1-4 bytes long, is refused.
    pub fn mount_drive(&mut self, name: &[u8], category: FileSystemCategory, fs: FileSystemKind) -> (r:
        Result<usize, SystemError>)
        requires
            old(self).wf(),
            fs.wf(),
        ensures
            final(self).wf(),
            match r {
                Ok(n) => {
                    &&& old(self).spec_find_drive(name@) is None
                    &&& 1 <= name@.len() <= 4
                    &&& n == old(self)@.len()
                    &&& final(self)@.len() == old(self)@.len() + 1
                    &&& forall|i: int| 0 <= i < old(self)@.len() ==> final(self)@[i] == old(self)@[i]
                    &&& final(self)@[n as int].name@ == name@
                    &&& final(self)@[n as int].category == category
                    &&& final(self)@[n as int].fs == fs
                },
                Err(e) => {
                    &&& e == SystemError::Unknown
                    &&& final(self)@ == old(self)@
                    &&& (old(self).spec_find_drive(name@) is Some || name@.len() < 1 || name@.len()
                        > 4)
                },
            },
    {
        if name.len() < 1 || name.len() > 4 {
            return Err(SystemError::Unknown);
        }
        match self.get_drive_number_by_name(name) {
            Some(_) => Err(SystemError::Unknown),
            None => {
                let number = self.drives.len();
                let mut drive_name: Vec<u8> = Vec::new();
                let mut i: usize = 0;
                while i < name.len()
                    invariant
                        i <= name@.len(),
                        drive_name@.len() == i,
                        forall|j: int| 0 <= j < i ==> drive_name@[j] == name@[j],
                    decreases name@.len() - i,
                {
                    drive_name.push(name[i]);
                    i += 1;
                }
                proof {
                    assert(drive_name@ =~= name@);
                }
                self.drives.push(Drive { name: drive_name, category, fs });
                proof {
                    assert forall|a: int, b: int|
                        0 <= a < b < self.drives@.len() implies self.drives@[a].name@
                        != self.drives@[b].name@ by {
                        if b == self.drives@.len() - 1 {
                            assert(self.drives@[a] == old(self)@[a]);
                        }
                    }
                }
                Ok(number)
            },
        }
    }

    /// Look a drive up by its (upper-cased) name.
    pub fn get_drive_number_by_name(&self, name: &[u8]) -> (r: Option<usize>)
        requires
            self.wf(),
        ensures
            match r {
                Some(n) => n < self@.len() && self@[n as int].name@ == name@ && Some(n as int)
                    == self.spec_find_drive(name@),
                None => self.spec_find_drive(name@) is None,
            },
    {
        let len: usize = self.drives.len();
        let mut i: usize = 0;
        while i < len
            invariant
                self.wf(),
                i <= len,
                len == self.drives@.len(),
                forall|j: int| 0 <= j < i ==> (#[trigger] self.drives@[j]).name@ != name@,
            decreases len - i,
        {
            if crate::devices::vecs_equal_slice(&self.drives[i].name, name) {
                proof {
                    let w = choose|k: int|
                        0 <= k < self.drives@.len() && (#[trigger] self.drives@[k]).name@ == name@;
                    if w != i as int {
                        assert(self.drives@[w].name@ != self.drives@[i as int].name@);
                    }
                }
                return Some(i);
            }
            i += 1;
        }
        None
    }
}

/// Mount the system drives: the boot archive as `INIT`, the device
/// filesystem as `DEV`, and the pipe filesystem as `PIPE`.
pub fn init_system_drives(
    initfs: InitFileSystem,
    devfs: DevFileSystem,
    pipefs: PipeFileSystem,
) -> (r: DriveMap)
    requires
        initfs.wf(),
        devfs.wf(),
        pipefs.wf(),
    ensures
        r.wf(),
        r@.len() == 3,
        r@[0].name@ == seq![0x49u8, 0x4eu8, 0x49u8, 0x54u8],
        r@[1].name@ == seq![0x44u8, 0x45u8, 0x56u8],
        r@[2].name@ == seq![0x50u8, 0x49u8, 0x50u8, 0x45u8],
        r@[0].fs == FileSystemKind::Init(initfs),
        r@[1].fs == FileSystemKind::Dev(devfs),
        r@[2].fs == FileSystemKind::Pipe(pipefs),
{
    let mut drives = DriveMap::new();
    // "INIT"
    let mut init_name: Vec<u8> = Vec::new();
    init_name.push(0x49);
    init_name.push(0x4e);
    init_name.push(0x49);
    init_name.push(0x54);
    proof {
        assert(init_name@ =~= seq![0x49u8, 0x4eu8, 0x49u8, 0x54u8]);
    }
    let r0 = drives.mount_drive(
        init_name.as_slice(),
        FileSystemCategory::KernelSync,
        FileSystemKind::Init(initfs),
    );
    proof {
        assert(r0 is Ok);
    }
    // "DEV"
    let mut dev_name: Vec<u8> = Vec::new();
    dev_name.push(0x44);
    dev_name.push(0x45);
    dev_name.push(0x56);
    proof {
        assert(dev_name@ =~= seq![0x44u8, 0x45u8, 0x56u8]);
    }
    let r1 = drives.mount_drive(
        dev_name.as_slice(),
        FileSystemCategory::KernelAsync,
        FileSystemKind::Dev(devfs),
    );
    proof {
        assert(dev_name@.len() == 3 && init_name@.len() == 4);
        assert(r1 is Ok);
    }
    // "PIPE"
    let mut pipe_name: Vec<u8> = Vec::new();
    pipe_name.push(0x50);
    pipe_name.push(0x49);
    pipe_name.push(0x50);
    pipe_name.push(0x45);
    proof {
        assert(pipe_name@ =~= seq![0x50u8, 0x49u8, 0x50u8, 0x45u8]);
    }
    let r2 = drives.mount_drive(
        pipe_name.as_slice(),
        FileSystemCategory::KernelSync,
        FileSystemKind::Pipe(pipefs),
    );
    proof {
        assert(pipe_name@[0] == 0x50u8 && init_name@[0] == 0x49u8 && dev_name@[0] == 0x44u8);
        assert(r2 is Ok);
    }
    drives
}

} // verus!
