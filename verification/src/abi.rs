//! Numbers of the Linux system-call interface that the decisions below
//! read: those that are the same on every architecture, and the layout of
//! the `open` flags, which is not.

use vstd::prelude::*;

verus! {

/// The bit values of the `open` flags on the target. They differ between
/// architectures (`O_DIRECTORY` is 0o200000 on x86_64 and riscv64, 0o40000
/// on aarch64), so the caller supplies them from the target's headers.
#[derive(Clone, Copy, Debug, PartialEq, Eq, Structural)]
pub struct OpenFlagBits {
    pub rdonly: u32,
    pub wronly: u32,
    pub creat: u32,
    pub trunc: u32,
    pub append: u32,
    pub nonblock: u32,
    pub directory: u32,
    /// `O_PATH`; opening for execution shares its bit.
    pub path: u32,
}

/// The directory descriptor that stands for the current directory.
pub const AT_FDCWD: i32 = -100;

pub const F_DUPFD: u32 = 0;
pub const F_GETFD: u32 = 1;
pub const F_GETFL: u32 = 3;
pub const F_SETFL: u32 = 4;
pub const F_DUPFD_CLOEXEC: u32 = 1030;
pub const FD_CLOEXEC: u32 = 1;

/// `access` mode bits.
pub const X_OK: u32 = 1;
pub const W_OK: u32 = 2;
pub const R_OK: u32 = 4;

/// Owner permission bits of a file-system node.
pub const OWNER_READ: u16 = 0o400;
pub const OWNER_WRITE: u16 = 0o200;
pub const OWNER_EXEC: u16 = 0o100;

/// `arch_prctl` codes.
pub const ARCH_SET_GS: i32 = 0x1001;
pub const ARCH_SET_FS: i32 = 0x1002;
pub const ARCH_GET_FS: i32 = 0x1003;
pub const ARCH_GET_GS: i32 = 0x1004;
pub const ARCH_GET_CPUID: i32 = 0x1011;
pub const ARCH_SET_CPUID: i32 = 0x1012;

} // verus!
