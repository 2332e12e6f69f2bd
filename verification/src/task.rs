//! `arch_prctl`: which of its codes this kernel serves.

use vstd::prelude::*;
use crate::abi::{ARCH_GET_CPUID, ARCH_GET_FS, ARCH_GET_GS, ARCH_SET_CPUID, ARCH_SET_FS, ARCH_SET_GS};
use crate::errno::Errno;

verus! {

/// The `arch_prctl` codes (x86_64 only).
#[derive(Clone, Copy, Debug, PartialEq, Eq, Structural)]
pub enum ArchPrctlCode {
    /// Set the GS segment base.
    ArchSetGs,
    /// Set the FS segment base.
    ArchSetFs,
    /// Get the FS segment base.
    ArchGetFs,
    /// Get the GS segment base.
    ArchGetGs,
    /// Whether the `cpuid` instruction is enabled.
    ArchGetCpuid,
    /// Enable (address not 0) or disable (address 0) the `cpuid` instruction
    /// for the calling thread.
    ArchSetCpuid,
}

/// The number of each code.
pub open spec fn arch_prctl_number(c: ArchPrctlCode) -> i32 {
    match c {
        ArchPrctlCode::ArchSetGs => ARCH_SET_GS,
        ArchPrctlCode::ArchSetFs => ARCH_SET_FS,
        ArchPrctlCode::ArchGetFs => ARCH_GET_FS,
        ArchPrctlCode::ArchGetGs => ARCH_GET_GS,
        ArchPrctlCode::ArchGetCpuid => ARCH_GET_CPUID,
        ArchPrctlCode::ArchSetCpuid => ARCH_SET_CPUID,
    }
}

impl ArchPrctlCode {
    /// The code with number `code`, if there is one.
    pub fn try_from_code(code: i32) -> (r: Option<ArchPrctlCode>)
        ensures
            match r {
                Some(c) => arch_prctl_number(c) == code,
                None => forall|c: ArchPrctlCode| arch_prctl_number(c) != code,
            },
    {
        if code == ARCH_SET_GS {
            Some(ArchPrctlCode::ArchSetGs)
        } else if code == ARCH_SET_FS {
            Some(ArchPrctlCode::ArchSetFs)
        } else if code == ARCH_GET_FS {
            Some(ArchPrctlCode::ArchGetFs)
        } else if code == ARCH_GET_GS {
            Some(ArchPrctlCode::ArchGetGs)
        } else if code == ARCH_GET_CPUID {
            Some(ArchPrctlCode::ArchGetCpuid)
        } else if code == ARCH_SET_CPUID {
            Some(ArchPrctlCode::ArchSetCpuid)
        } else {
            None
        }
    }
}

/// Whether this kernel serves the code: setting and getting the FS and GS
/// bases.
pub open spec fn arch_prctl_served(c: ArchPrctlCode) -> bool {
    c == ArchPrctlCode::ArchSetFs || c == ArchPrctlCode::ArchGetFs || c == ArchPrctlCode::ArchSetGs
        || c == ArchPrctlCode::ArchGetGs
}

/// The operation that `arch_prctl(code, ..)` performs; `ENOSYS` for a
/// code it does not serve and for a number that is no code.
pub fn arch_prctl_op(code: i32) -> (r: Result<ArchPrctlCode, Errno>)
    ensures
        match r {
            Ok(c) => arch_prctl_number(c) == code && arch_prctl_served(c),
            Err(e) => e == Errno::ENOSYS && forall|c: ArchPrctlCode|
                arch_prctl_number(c) == code ==> !arch_prctl_served(c),
        },
{
    match ArchPrctlCode::try_from_code(code) {
        Some(ArchPrctlCode::ArchSetFs) => Ok(ArchPrctlCode::ArchSetFs),
        Some(ArchPrctlCode::ArchGetFs) => Ok(ArchPrctlCode::ArchGetFs),
        Some(ArchPrctlCode::ArchSetGs) => Ok(ArchPrctlCode::ArchSetGs),
        Some(ArchPrctlCode::ArchGetGs) => Ok(ArchPrctlCode::ArchGetGs),
        _ => Err(Errno::ENOSYS),
    }
}

/// The served codes are exactly those numbered `0x1001` to `0x1004`, and
/// distinct codes have distinct numbers.
pub proof fn law_served_codes_are_the_segment_bases(c: ArchPrctlCode, d: ArchPrctlCode)
    ensures
        arch_prctl_served(c) <==> 0x1001 <= arch_prctl_number(c) <= 0x1004,
        arch_prctl_number(c) == arch_prctl_number(d) ==> c == d,
{
}

} // verus!
