//! Verified decision logic of a small set of Linux file-descriptor and
//! process-control system calls, together with the command-line parser of
//! the kernel's test launcher.

pub mod cmdline;
pub mod launcher;
pub mod errno;
pub mod fd_table;
pub mod abi;
pub mod open;
pub mod fd_ops;
pub mod access;
pub mod io;
pub mod task;
