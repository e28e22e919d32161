//! The device filesystem.
//!
//! Mounted as the `DEV` drive: opening a path matches its first component
//! against the device registry's blank-padded 8-byte names, and each open
//! handle remembers its device number. Reads, writes and seeks forward to
//! the device driver, with the local handle as the driver's per-open index.

use vstd::prelude::*;

use crate::devices::{spec_pad_name, DeviceRegistry, pad_device_name};
use crate::error::SystemError;
use crate::handles::{HandleAllocator, LocalHandle};
use crate::vfs::{spec_strip_backslash, IoctlResult};

verus! {

/// The `DEV` drive: the device registry and the map from local handles to
/// device numbers.
pub struct DevFileSystem {
    pub registry: DeviceRegistry,
    pub handle_allocator: HandleAllocator,
    pub handle_to_device: Vec<Option<usize>>,
}

impl DevFileSystem {
    /// Handles are minted by position, and every open handle names a
    /// registered device.
    pub open spec fn wf(self) -> bool {
        &&& self.registry.wf()
        &&& self.handle_to_device@.len() == self.handle_allocator.next
        &&& forall|h: int|
            0 <= h < self.handle_to_device@.len() ==> match #[trigger] self.handle_to_device@[h] {
                Some(n) => n < self.registry@.len(),
                None => true,
            }
    }

    /// The device number an open handle refers to.
    pub open spec fn spec_device_for_handle(self, h: int) -> Option<usize> {
        if 0 <= h < self.handle_to_device@.len() {
            self.handle_to_device@[h]
        } else {
            None
        }
    }

    /// What a read through a handle produces, when the handle is open.
    pub open spec fn spec_read_result(self, h: int, len: nat) -> Option<Seq<u8>> {
        match self.spec_device_for_handle(h) {
            Some(n) => Some(self.registry@[n as int].driver.spec_read(len)),
            None => None,
        }
    }

    /// Route handles over this registry; nothing is open yet.
    pub fn new(registry: DeviceRegistry) -> (r: DevFileSystem)
        requires
            registry.wf(),
        ensures
            r.wf(),
            r.registry == registry,
            r.handle_to_device@.len() == 0,
    {
        DevFileSystem {
            registry,
            handle_allocator: HandleAllocator::new(),
            handle_to_device: Vec::new(),
        }
    }

    pub fn get_device_for_handle(&self, handle: LocalHandle) -> (r: Option<usize>)
        ensures
            r == self.spec_device_for_handle(handle.handle as int),
    {
        let index: usize = handle.as_u32() as usize;
        if index < self.handle_to_device.len() {
            self.handle_to_device[index]
        } else {
            None
        }
    }

    /// Open a device by name: the path, stripped of a leading backslash and
    /// cut or padded to 8 bytes, must name a registered device. The new
    /// handle remembers the device number.
    pub fn open(&mut self, path: &[u8]) -> (r: Result<LocalHandle, SystemError>)
        requires
            old(self).wf(),
        ensures
            final(self).wf(),
            final(self).registry == old(self).registry,
            match r {
                Ok(h) => {
                    let name = spec_pad_name(spec_strip_backslash(path@));
                    &&& old(self).registry.spec_find_name(name) is Some
                    &&& old(self).handle_allocator.next < 0xffff_fffeu32
                    &&& h.handle == old(self).handle_to_device@.len()
                    &&& final(self).handle_to_device@ == old(self).handle_to_device@.push(
                        Some(old(self).registry.spec_find_name(name)->Some_0 as usize),
                    )
                },
                Err(e) => {
                    &&& *final(self) == *old(self)
                    &&& e == SystemError::NotFound ==> old(self).registry.spec_find_name(
                        spec_pad_name(spec_strip_backslash(path@)),
                    ) is None
                    &&& e == SystemError::OutOfResources ==> old(self).handle_allocator.next
                        >= 0xffff_fffeu32 && old(self).registry.spec_find_name(
                        spec_pad_name(spec_strip_backslash(path@)),
                    ) is Some
                    &&& e == SystemError::NotFound || e == SystemError::OutOfResources
                },
            },
    {
        let local_path: &[u8] = if path.len() > 0 && path[0] == 0x5c {
            path.split_at(1).1
        } else {
            path
        };
        proof {
            assert(local_path@ =~= spec_strip_backslash(path@));
        }
        let name = pad_device_name(local_path);
        let number = match self.registry.get_device_number_by_name(&name) {
            Some(n) => n,
            None => {
                return Err(SystemError::NotFound);
            },
        };
        if self.handle_allocator.next >= 0xffff_fffeu32 {
            return Err(SystemError::OutOfResources);
        }
        let handle = self.handle_allocator.get_next();
        let opened = self.registry.open_device(number, handle);
        proof {
            assert(opened is Ok);
        }
        self.handle_to_device.push(Some(number));
        Ok(handle)
    }

    /// Read through an open handle's device driver.
    pub fn read(&mut self, handle: LocalHandle, len: usize) -> (r: Result<Vec<u8>, SystemError>)
        requires
            old(self).wf(),
        ensures
            *final(self) == *old(self),
            match r {
                Ok(v) => Some(v@) == old(self).spec_read_result(handle.handle as int, len as nat),
                Err(e) => e == SystemError::BadHandle && old(self).spec_device_for_handle(
                    handle.handle as int,
                ) is None,
            },
    {
        match self.get_device_for_handle(handle) {
            Some(number) => {
                let r = self.registry.read_device(number, handle, len);
                match r {
                    Ok(v) => Ok(v),
                    Err(_) => {
                        proof {
                            assert(false);
                        }
                        Err(SystemError::BadHandle)
                    },
                }
            },
            None => Err(SystemError::BadHandle),
        }
    }

    /// Write through an open handle's device driver; the built-in drivers
    /// accept the whole buffer.
    pub fn write(&mut self, handle: LocalHandle, buffer: &[u8]) -> (r: Result<usize, SystemError>)
        requires
            old(self).wf(),
        ensures
            *final(self) == *old(self),
            match r {
                Ok(n) => old(self).spec_device_for_handle(handle.handle as int) is Some && n
                    == buffer@.len(),
                Err(e) => e == SystemError::BadHandle && old(self).spec_device_for_handle(
                    handle.handle as int,
                ) is None,
            },
    {
        match self.get_device_for_handle(handle) {
            Some(number) => {
                let r = self.registry.write_device(number, handle, buffer);
                match r {
                    Ok(n) => Ok(n),
                    Err(_) => {
                        proof {
                            assert(false);
                        }
                        Err(SystemError::BadHandle)
                    },
                }
            },
            None => Err(SystemError::BadHandle),
        }
    }

    /// Release an open handle: the entry is vacated and the driver told.
    pub fn close(&mut self, handle: LocalHandle) -> (r: Result<(), SystemError>)
        requires
            old(self).wf(),
        ensures
            final(self).wf(),
            final(self).registry == old(self).registry,
            final(self).handle_allocator == old(self).handle_allocator,
            match r {
                Ok(()) => {
                    &&& old(self).spec_device_for_handle(handle.handle as int) is Some
                    &&& final(self).handle_to_device@ == old(self).handle_to_device@.update(
                        handle.handle as int,
                        None,
                    )
                },
                Err(e) => {
                    &&& e == SystemError::BadHandle
                    &&& old(self).spec_device_for_handle(handle.handle as int) is None
                    &&& *final(self) == *old(self)
                },
            },
    {
        match self.get_device_for_handle(handle) {
            Some(number) => {
                let index: usize = handle.as_u32() as usize;
                self.handle_to_device.set(index, None);
                let closed = self.registry.close_device(number, handle);
                proof {
                    assert(closed is Ok);
                }
                Ok(())
            },
            None => Err(SystemError::BadHandle),
        }
    }

    /// A second handle to the same device. Reads and writes through the new
    /// handle reach exactly the device the old one reaches.
    pub fn dup(&mut self, handle: LocalHandle) -> (r: Result<LocalHandle, SystemError>)
        requires
            old(self).wf(),
        ensures
            final(self).wf(),
            final(self).registry == old(self).registry,
            match r {
                Ok(h) => {
                    &&& h.handle == old(self).handle_to_device@.len()
                    &&& old(self).handle_allocator.next < 0xffff_fffeu32
                    &&& final(self).handle_to_device@ == old(self).handle_to_device@.push(
                        old(self).spec_device_for_handle(handle.handle as int),
                    )
                    &&& final(self).spec_device_for_handle(h.handle as int) == old(
                        self,
                    ).spec_device_for_handle(handle.handle as int)
                    &&& final(self).spec_device_for_handle(handle.handle as int) == old(
                        self,
                    ).spec_device_for_handle(handle.handle as int)
                    &&& old(self).spec_device_for_handle(handle.handle as int) is Some
                },
                Err(e) => {
                    &&& *final(self) == *old(self)
                    &&& e == SystemError::BadHandle ==> old(self).spec_device_for_handle(
                        handle.handle as int,
                    ) is None
                    &&& e == SystemError::OutOfResources ==> old(self).handle_allocator.next
                        >= 0xffff_fffeu32 && old(self).spec_device_for_handle(
                        handle.handle as int,
                    ) is Some
                    &&& e == SystemError::BadHandle || e == SystemError::OutOfResources
                },
            },
    {
        match self.get_device_for_handle(handle) {
            Some(number) => {
                if self.handle_allocator.next >= 0xffff_fffeu32 {
                    return Err(SystemError::OutOfResources);
                }
                let new_handle = self.handle_allocator.get_next();
                self.handle_to_device.push(Some(number));
                Ok(new_handle)
            },
            None => Err(SystemError::BadHandle),
        }
    }

    /// The identify query (command 0) answers the device number; other
    /// commands are not implemented.
    pub fn ioctl(&mut self, handle: LocalHandle, command: u32, arg: u32) -> (r: Result<
        IoctlResult,
        SystemError,
    >)
        requires
            old(self).wf(),
        ensures
            *final(self) == *old(self),
            match r {
                Ok(v) => command == 0 && match old(self).spec_device_for_handle(
                    handle.handle as int,
                ) {
                    Some(n) => v == IoctlResult::Value(n as u32),
                    None => false,
                },
                Err(e) => {
                    if command != 0 {
                        e == SystemError::UnsupportedCommand
                    } else {
                        e == SystemError::BadHandle && old(self).spec_device_for_handle(
                            handle.handle as int,
                        ) is None
                    }
                },
            },
    {
        if command != 0 {
            return Err(SystemError::UnsupportedCommand);
        }
        match self.get_device_for_handle(handle) {
            Some(number) => {
                proof {
                    assert(number < self.registry@.len());
                    assert(self.registry@.len() <= 0xffff_ffff) by {
                        assert(self.handle_to_device@.len() < 0x1_0000_0000);
                    }
                }
                Ok(IoctlResult::Value(number as u32))
            },
            None => Err(SystemError::BadHandle),
        }
    }

    /// Forward a seek to the driver; neither built-in device supports one.
    pub fn seek(&mut self, handle: LocalHandle, offset: crate::cursor::SeekMethod) -> (r: Result<
        usize,
        SystemError,
    >)
        requires
            old(self).wf(),
        ensures
            *final(self) == *old(self),
            r is Err,
            match r {
                Ok(n) => false,
                Err(e) => {
                    if old(self).spec_device_for_handle(handle.handle as int) is Some {
                        e == SystemError::UnsupportedCommand
                    } else {
                        e == SystemError::BadHandle
                    }
                },
            },
    {
        match self.get_device_for_handle(handle) {
            Some(number) => {
                let r = self.registry.seek_device(number, handle, offset);
                match r {
                    Err(e) => {
                        proof {
                            assert(e == SystemError::UnsupportedCommand);
                        }
                        Err(e)
                    },
                    Ok(_) => {
                        proof {
                            assert(false);
                        }
                        Err(SystemError::Unknown)
                    },
                }
            },
            None => Err(SystemError::BadHandle),
        }
    }
}

/// Duplicated device handles are interchangeable: after a successful `dup`,
/// a read or write through the new handle reaches the same device, so it
/// produces exactly what the same call through the source handle produced
/// before.
pub proof fn lemma_dup_routes_identically(
    before: DevFileSystem,
    after: DevFileSystem,
    src: LocalHandle,
    dup: LocalHandle,
    len: nat,
)
    requires
        after.registry == before.registry,
        after.spec_device_for_handle(dup.handle as int) == before.spec_device_for_handle(
            src.handle as int,
        ),
        after.spec_device_for_handle(src.handle as int) == before.spec_device_for_handle(
            src.handle as int,
        ),
    ensures
        after.spec_read_result(dup.handle as int, len) == before.spec_read_result(
            src.handle as int,
            len,
        ),
        after.spec_read_result(src.handle as int, len) == before.spec_read_result(
            src.handle as int,
            len,
        ),
{
}

impl crate::vfs::FileSystem for DevFileSystem {
    open spec fn inv(&self) -> bool {
        self.wf()
    }

    fn open(&mut self, path: &[u8]) -> Result<LocalHandle, SystemError> {
        DevFileSystem::open(self, path)
    }

    fn read(&mut self, handle: LocalHandle, len: usize) -> Result<Vec<u8>, SystemError> {
        DevFileSystem::read(self, handle, len)
    }

    fn write(&mut self, handle: LocalHandle, buffer: &[u8]) -> Result<usize, SystemError> {
        DevFileSystem::write(self, handle, buffer)
    }

    fn close(&mut self, handle: LocalHandle) -> Result<(), SystemError> {
        DevFileSystem::close(self, handle)
    }

    fn dup(&mut self, handle: LocalHandle) -> Result<LocalHandle, SystemError> {
        DevFileSystem::dup(self, handle)
    }

    fn seek(&mut self, handle: LocalHandle, offset: crate::cursor::SeekMethod) -> Result<
        usize,
        SystemError,
    > {
        DevFileSystem::seek(self, handle, offset)
    }

    fn open_dir(&mut self, path: &[u8]) -> Result<LocalHandle, SystemError> {
        Err(SystemError::UnsupportedCommand)
    }

    fn read_dir(&mut self, handle: LocalHandle, index: usize) -> Result<
        crate::vfs::DirEntryInfo,
        SystemError,
    > {
        Err(SystemError::UnsupportedCommand)
    }

    fn ioctl(&mut self, handle: LocalHandle, command: u32, arg: u32) -> Result<
        IoctlResult,
        SystemError,
    > {
        DevFileSystem::ioctl(self, handle, command, arg)
    }
}

} // verus!
