//! Linux error numbers that the system calls answer with.

use vstd::prelude::*;

verus! {

/// A Linux error number. The named variants are those that this library
/// decides itself; `Other` carries any other code, such as one that a file
/// system reported.
#[allow(non_camel_case_types)]
#[derive(Clone, Copy, Debug, PartialEq, Eq, Structural)]
pub enum Errno {
    EBADF,
    EACCES,
    EISDIR,
    EINVAL,
    EMFILE,
    ESPIPE,
    ENOSYS,
    Other(i32),
}

/// The Linux number of an error.
pub open spec fn errno_code(e: Errno) -> i32 {
    match e {
        Errno::EBADF => 9,
        Errno::EACCES => 13,
        Errno::EISDIR => 21,
        Errno::EINVAL => 22,
        Errno::EMFILE => 24,
        Errno::ESPIPE => 29,
        Errno::ENOSYS => 38,
        Errno::Other(c) => c,
    }
}

/// Whether the value is the only one that stands for its code: a code that
/// has a named variant is never carried by `Other`.
pub open spec fn errno_canonical(e: Errno) -> bool {
    match e {
        Errno::Other(c) => c != 9 && c != 13 && c != 21 && c != 22 && c != 24 && c != 29 && c
            != 38,
        _ => true,
    }
}

impl Errno {
    /// The Linux number of this error.
    pub fn code(&self) -> (c: i32)
        ensures
            c == errno_code(*self),
    {
        match self {
            Errno::EBADF => 9,
            Errno::EACCES => 13,
            Errno::EISDIR => 21,
            Errno::EINVAL => 22,
            Errno::EMFILE => 24,
            Errno::ESPIPE => 29,
            Errno::ENOSYS => 38,
            Errno::Other(c) => *c,
        }
    }

    /// The error with Linux number `code`, by its named variant where it has
    /// one.
    pub fn from_code(code: i32) -> (e: Errno)
        ensures
            errno_code(e) == code,
            errno_canonical(e),
    {
        match code {
            9 => Errno::EBADF,
            13 => Errno::EACCES,
            21 => Errno::EISDIR,
            22 => Errno::EINVAL,
            24 => Errno::EMFILE,
            29 => Errno::ESPIPE,
            38 => Errno::ENOSYS,
            c => Errno::Other(c),
        }
    }
}

/// Two canonical errors with the same number are the same error, so
/// `from_code` undoes `code`.
pub proof fn law_code_identifies_error(a: Errno, b: Errno)
    requires
        errno_canonical(a),
        errno_canonical(b),
        errno_code(a) == errno_code(b),
    ensures
        a == b,
{
}

} // verus!
