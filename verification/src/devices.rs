//! The device registry.
//!
//! Devices are numbered and carry an 8-byte blank-padded ASCII name, unique
//! in the registry. Every driver offers the same capability set; the device
//! filesystem forwards reads and writes to it, passing the local handle as
//! the driver's per-open index.

use vstd::prelude::*;

use crate::cursor::SeekMethod;
use crate::error::SystemError;
use crate::handles::LocalHandle;

verus! {

/// The capability set every device driver offers. Reads hand back the bytes
/// they produced; a driver that cannot seek keeps the default.
pub trait DeviceDriver {
    fn open(&mut self, index: LocalHandle) -> Result<(), SystemError>;

    fn read(&mut self, index: LocalHandle, len: usize) -> Result<Vec<u8>, SystemError>;

    fn write(&mut self, index: LocalHandle, buffer: &[u8]) -> Result<usize, SystemError>;

    fn close(&mut self, index: LocalHandle) -> Result<(), SystemError>;

    fn seek(&mut self, index: LocalHandle, offset: SeekMethod) -> Result<usize, SystemError> {
        Err(SystemError::UnsupportedCommand)
    }
}

/// The zero device: every read returns bytes of value zero, and writes are
/// accepted and discarded.
pub struct ZeroDevice {}

impl ZeroDevice {
    pub fn read_zeroes(&mut self, len: usize) -> (r: Vec<u8>)
        ensures
            r@ == Seq::new(len as nat, |i: int| 0u8),
    {
        let mut out: Vec<u8> = Vec::new();
        let mut i: usize = 0;
        while i < len
            invariant
                i <= len,
                out@.len() == i,
                forall|j: int| 0 <= j < i ==> out@[j] == 0u8,
            decreases len - i,
        {
            out.push(0);
            i += 1;
        }
        proof {
            assert(out@ =~= Seq::new(len as nat, |i: int| 0u8));
        }
        out
    }
}

impl DeviceDriver for ZeroDevice {
    fn open(&mut self, index: LocalHandle) -> Result<(), SystemError> {
        Ok(())
    }

    fn read(&mut self, index: LocalHandle, len: usize) -> Result<Vec<u8>, SystemError> {
        Ok(self.read_zeroes(len))
    }

    fn write(&mut self, index: LocalHandle, buffer: &[u8]) -> Result<usize, SystemError> {
        Ok(buffer.len())
    }

    fn close(&mut self, index: LocalHandle) -> Result<(), SystemError> {
        Ok(())
    }
}

/// An output sink such as a serial port or terminal: writes are accepted in
/// full and handed to the hardware outside this model, and reads produce
/// nothing.
pub struct SinkDevice {}

impl DeviceDriver for SinkDevice {
    fn open(&mut self, index: LocalHandle) -> Result<(), SystemError> {
        Ok(())
    }

    fn read(&mut self, index: LocalHandle, len: usize) -> Result<Vec<u8>, SystemError> {
        Ok(Vec::new())
    }

    fn write(&mut self, index: LocalHandle, buffer: &[u8]) -> Result<usize, SystemError> {
        Ok(buffer.len())
    }

    fn close(&mut self, index: LocalHandle) -> Result<(), SystemError> {
        Ok(())
    }
}

/// The driver behind one registered device.
pub enum DriverKind {
    Zero(ZeroDevice),
    Sink(SinkDevice),
}

/// One registered device: an 8-byte blank-padded ASCII name and its driver.
pub struct Device {
    pub name: Vec<u8>,
    pub driver: DriverKind,
}

/// A device name cut or padded with blanks to exactly 8 bytes.
pub open spec fn spec_pad_name(name: Seq<u8>) -> Seq<u8> {
    Seq::new(8, |i: int| if i < name.len() { name[i] } else { 0x20u8 })
}

/// Cut or pad a device name with blanks to exactly 8 bytes.
pub fn pad_device_name(name: &[u8]) -> (r: Vec<u8>)
    ensures
        r@ == spec_pad_name(name@),
{
    let mut out: Vec<u8> = Vec::new();
    let mut i: usize = 0;
    while i < 8
        invariant
            i <= 8,
            out@.len() == i,
            forall|j: int| 0 <= j < i ==> out@[j] == spec_pad_name(name@)[j],
        decreases 8 - i,
    {
        if i < name.len() {
            out.push(name[i]);
        } else {
            out.push(0x20);
        }
        i += 1;
    }
    proof {
        assert(out@ =~= spec_pad_name(name@));
    }
    out
}

/// All devices the kernel knows, numbered by their position.
pub struct DeviceRegistry {
    pub devices: Vec<Device>,
}

impl DeviceRegistry {
    pub open spec fn view(self) -> Seq<Device> {
        self.devices@
    }

    /// Names are 8 bytes and no two devices share one; numbers fit the
    /// 32-bit ioctl answer.
    pub open spec fn wf(self) -> bool {
        &&& self.devices@.len() <= 0xffff_ffff
        &&& forall|i: int| 0 <= i < self.devices@.len() ==> (#[trigger] self.devices@[i]).name@.len()
            == 8
        &&& forall|i: int, j: int|
            0 <= i < j < self.devices@.len() ==> self.devices@[i].name@ != self.devices@[j].name@
    }

    /// The number of the device carrying this 8-byte name, if any.
    pub open spec fn spec_find_name(self, name: Seq<u8>) -> Option<int> {
        if exists|i: int| 0 <= i < self.devices@.len() && (#[trigger] self.devices@[i]).name@ == name {
            Some(
                choose|i: int|
                    0 <= i < self.devices@.len() && (#[trigger] self.devices@[i]).name@ == name,
            )
        } else {
            None
        }
    }

    pub fn new() -> (r: DeviceRegistry)
        ensures
            r.wf(),
            r@.len() == 0,
    {
        DeviceRegistry { devices: Vec::new() }
    }

    /// Register a device under a name (cut or padded to 8 bytes); its number
    /// is handed back. A name already taken is refused.
    pub fn register_device(&mut self, name: &[u8], driver: DriverKind) -> (r: Result<
        usize,
        SystemError,
    >)
        requires
            old(self).wf(),
        ensures
            final(self).wf(),
            match r {
                Ok(n) => {
                    &&& old(self).spec_find_name(spec_pad_name(name@)) is None
                    &&& n == old(self)@.len()
                    &&& final(self)@.len() == old(self)@.len() + 1
                    &&& forall|i: int| 0 <= i < old(self)@.len() ==> final(self)@[i] == old(self)@[i]
                    &&& final(self)@[n as int].name@ == spec_pad_name(name@)
                    &&& final(self)@[n as int].driver == driver
                },
                Err(e) => {
                    &&& e == SystemError::Unknown
                    &&& (old(self).spec_find_name(spec_pad_name(name@)) is Some || old(self)@.len()
                        >= 0xffff_ffff)
                    &&& final(self)@ == old(self)@
                },
            },
    {
        let padded = pad_device_name(name);
        match self.get_device_number_by_name(&padded) {
            Some(_) => Err(SystemError::Unknown),
            None => {
                if self.devices.len() >= 0xffff_ffffusize {
                    return Err(SystemError::Unknown);
                }
                let number = self.devices.len();
                self.devices.push(Device { name: padded, driver });
                proof {
                    assert forall|i: int, j: int|
                        0 <= i < j < self.devices@.len() implies self.devices@[i].name@
                        != self.devices@[j].name@ by {
                        if j == self.devices@.len() - 1 {
                            assert(self.devices@[i] == old(self)@[i]);
                        }
                    }
                }
                Ok(number)
            },
        }
    }

    /// Look a device up by its 8-byte blank-padded name.
    pub fn get_device_number_by_name(&self, name: &Vec<u8>) -> (r: Option<usize>)
        requires
            self.wf(),
        ensures
            match r {
                Some(n) => n < self@.len() && self@[n as int].name@ == name@ && Some(n as int)
                    == self.spec_find_name(name@),
                None => self.spec_find_name(name@) is None,
            },
    {
        let len: usize = self.devices.len();
        let mut i: usize = 0;
        while i < len
            invariant
                self.wf(),
                i <= len,
                len == self.devices@.len(),
                forall|j: int| 0 <= j < i ==> (#[trigger] self.devices@[j]).name@ != name@,
            decreases len - i,
        {
            if vecs_equal(&self.devices[i].name, name) {
                proof {
                    let w = choose|k: int|
                        0 <= k < self.devices@.len() && (#[trigger] self.devices@[k]).name@
                            == name@;
                    if w != i as int {
                        assert(self.devices@[w].name@ != self.devices@[i as int].name@);
                    }
                }
                return Some(i);
            }
            i += 1;
        }
        None
    }
}

impl DriverKind {
    /// What a read from this driver produces: the zero device fills the
    /// whole request with zero bytes, a sink has nothing to read.
    pub open spec fn spec_read(self, len: nat) -> Seq<u8> {
        match self {
            DriverKind::Zero(_) => Seq::new(len, |i: int| 0u8),
            DriverKind::Sink(_) => Seq::empty(),
        }
    }
}

impl DeviceRegistry {
    /// Tell a device that a new handle refers to it.
    pub fn open_device(&self, number: usize, index: LocalHandle) -> (r: Result<(), SystemError>)
        ensures
            r is Ok <==> number < self@.len(),
            r is Err ==> r == Err::<(), SystemError>(SystemError::NotFound),
    {
        if number < self.devices.len() {
            Ok(())
        } else {
            Err(SystemError::NotFound)
        }
    }

    /// Read from a device through its driver.
    pub fn read_device(&self, number: usize, index: LocalHandle, len: usize) -> (r: Result<
        Vec<u8>,
        SystemError,
    >)
        ensures
            match r {
                Ok(v) => number < self@.len() && v@ == self@[number as int].driver.spec_read(
                    len as nat,
                ),
                Err(e) => number >= self@.len() && e == SystemError::NotFound,
            },
    {
        if number < self.devices.len() {
            match &self.devices[number].driver {
                DriverKind::Zero(_) => {
                    let mut zero = ZeroDevice {  };
                    Ok(zero.read_zeroes(len))
                },
                DriverKind::Sink(_) => Ok(Vec::new()),
            }
        } else {
            Err(SystemError::NotFound)
        }
    }

    /// Write to a device through its driver; both built-in drivers accept
    /// the whole buffer.
    pub fn write_device(&self, number: usize, index: LocalHandle, buffer: &[u8]) -> (r: Result<
        usize,
        SystemError,
    >)
        ensures
            match r {
                Ok(n) => number < self@.len() && n == buffer@.len(),
                Err(e) => number >= self@.len() && e == SystemError::NotFound,
            },
    {
        if number < self.devices.len() {
            Ok(buffer.len())
        } else {
            Err(SystemError::NotFound)
        }
    }

    /// Tell a device that a handle to it went away.
    pub fn close_device(&self, number: usize, index: LocalHandle) -> (r: Result<(), SystemError>)
        ensures
            r is Ok <==> number < self@.len(),
            r is Err ==> r == Err::<(), SystemError>(SystemError::NotFound),
    {
        if number < self.devices.len() {
            Ok(())
        } else {
            Err(SystemError::NotFound)
        }
    }

    /// Seek on a device; neither built-in driver supports it.
    pub fn seek_device(&self, number: usize, index: LocalHandle, offset: SeekMethod) -> (r: Result<
        usize,
        SystemError,
    >)
        ensures
            r is Err,
            number < self@.len() ==> r == Err::<usize, SystemError>(
                SystemError::UnsupportedCommand,
            ),
            number >= self@.len() ==> r == Err::<usize, SystemError>(SystemError::NotFound),
    {
        if number < self.devices.len() {
            Err(SystemError::UnsupportedCommand)
        } else {
            Err(SystemError::NotFound)
        }
    }
}

/// The built-in device set: `COM1` and `TTY0` as output sinks, and `ZERO`,
/// whose reads return bytes of value zero. Numbers follow this order.
pub fn standard_devices() -> (r: DeviceRegistry)
    ensures
        r.wf(),
        r@.len() == 3,
        r@[0].name@ == spec_pad_name(seq![0x43u8, 0x4fu8, 0x4du8, 0x31u8]),
        r@[1].name@ == spec_pad_name(seq![0x54u8, 0x54u8, 0x59u8, 0x30u8]),
        r@[2].name@ == spec_pad_name(seq![0x5au8, 0x45u8, 0x52u8, 0x4fu8]),
        r@[0].driver is Sink,
        r@[1].driver is Sink,
        r@[2].driver is Zero,
{
    let mut registry = DeviceRegistry::new();
    // "COM1"
    let mut com1: Vec<u8> = Vec::new();
    com1.push(0x43);
    com1.push(0x4f);
    com1.push(0x4d);
    com1.push(0x31);
    proof {
        assert(com1@ =~= seq![0x43u8, 0x4fu8, 0x4du8, 0x31u8]);
    }
    let r0 = registry.register_device(com1.as_slice(), DriverKind::Sink(SinkDevice {  }));
    proof {
        assert(r0 is Ok);
    }
    // "TTY0"
    let mut tty0: Vec<u8> = Vec::new();
    tty0.push(0x54);
    tty0.push(0x54);
    tty0.push(0x59);
    tty0.push(0x30);
    proof {
        assert(tty0@ =~= seq![0x54u8, 0x54u8, 0x59u8, 0x30u8]);
    }
    let r1 = registry.register_device(tty0.as_slice(), DriverKind::Sink(SinkDevice {  }));
    proof {
        assert(spec_pad_name(com1@)[0] == 0x43u8);
        assert(spec_pad_name(tty0@)[0] == 0x54u8);
        assert(r1 is Ok);
    }
    // "ZERO"
    let mut zero: Vec<u8> = Vec::new();
    zero.push(0x5a);
    zero.push(0x45);
    zero.push(0x52);
    zero.push(0x4f);
    proof {
        assert(zero@ =~= seq![0x5au8, 0x45u8, 0x52u8, 0x4fu8]);
    }
    let r2 = registry.register_device(zero.as_slice(), DriverKind::Zero(ZeroDevice {  }));
    proof {
        assert(spec_pad_name(zero@)[0] == 0x5au8);
        assert(r2 is Ok);
    }
    registry
}

/// Byte-for-byte equality of a byte vector and a byte slice.
pub fn vecs_equal_slice(a: &Vec<u8>, b: &[u8]) -> (r: bool)
    ensures
        r == (a@ == b@),
{
    if a.len() != b.len() {
        proof {
            assert(a@ != b@);
        }
        return false;
    }
    let len: usize = a.len();
    let mut i: usize = 0;
    while i < len
        invariant
            i <= len,
            len == a@.len(),
            len == b@.len(),
            forall|j: int| 0 <= j < i ==> a@[j] == b@[j],
        decreases len - i,
    {
        if a[i] != b[i] {
            proof {
                assert(a@[i as int] != b@[i as int]);
            }
            return false;
        }
        i += 1;
    }
    proof {
        assert(a@ =~= b@);
    }
    true
}

/// Byte-for-byte equality of two byte vectors.
pub fn vecs_equal(a: &Vec<u8>, b: &Vec<u8>) -> (r: bool)
    ensures
        r == (a@ == b@),
{
    if a.len() != b.len() {
        proof {
            assert(a@ != b@);
        }
        return false;
    }
    let len: usize = a.len();
    let mut i: usize = 0;
    while i < len
        invariant
            i <= len,
            len == a@.len(),
            len == b@.len(),
            forall|j: int| 0 <= j < i ==> a@[j] == b@[j],
        decreases len - i,
    {
        if a[i] != b[i] {
            proof {
                assert(a@[i as int] != b@[i as int]);
            }
            return false;
        }
        i += 1;
    }
    proof {
        assert(a@ =~= b@);
    }
    true
}

} // verus!
