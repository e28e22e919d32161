//! The kernel's error taxonomy and its encoding at the system-call boundary.

use vstd::prelude::*;

verus! {

/// Every failure the kernel can surface to user mode. Errors are carried
/// through internal code paths unchanged and encoded as a negative value in
/// register A at the system-call boundary.
#[derive(Clone, Copy, Debug, PartialEq, Eq, Structural)]
pub enum SystemError {
    /// Default failure.
    Unknown,
    /// System-call method or ioctl code not implemented.
    UnsupportedCommand,
    /// Handle not owned by the calling process, or not open.
    BadHandle,
    /// User pointer outside any readable or writable region.
    BadAddress,
    /// Path, device, or process not present.
    NotFound,
    /// Write to a read-only filesystem, or a ring-3 restricted operation.
    NoPermission,
    /// No free frame, or no free handle.
    OutOfResources,
    /// A non-blocking operation could not complete.
    WouldBlock,
}

impl SystemError {
    /// The code returned in register A: a negative value occupying the high
    /// half of the 32-bit range, so the top bit is always set.
    pub open spec fn spec_to_code(self) -> u32 {
        match self {
            SystemError::Unknown => 0xffff_ffffu32,
            SystemError::UnsupportedCommand => 0xffff_fffeu32,
            SystemError::BadHandle => 0xffff_fffdu32,
            SystemError::BadAddress => 0xffff_fffcu32,
            SystemError::NotFound => 0xffff_fffbu32,
            SystemError::NoPermission => 0xffff_fffau32,
            SystemError::OutOfResources => 0xffff_fff9u32,
            SystemError::WouldBlock => 0xffff_fff8u32,
        }
    }

    /// Encode this error for register A.
    pub fn to_code(self) -> (code: u32)
        ensures
            code == self.spec_to_code(),
            code >= 0x8000_0000u32,
    {
        match self {
            SystemError::Unknown => 0xffff_ffff,
            SystemError::UnsupportedCommand => 0xffff_fffe,
            SystemError::BadHandle => 0xffff_fffd,
            SystemError::BadAddress => 0xffff_fffc,
            SystemError::NotFound => 0xffff_fffb,
            SystemError::NoPermission => 0xffff_fffa,
            SystemError::OutOfResources => 0xffff_fff9,
            SystemError::WouldBlock => 0xffff_fff8,
        }
    }
}

} // verus!
