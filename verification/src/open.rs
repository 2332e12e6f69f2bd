//! Opening a file: options from `open` flags, and the order in which
//! `openat` tries a file and a directory.

use vstd::prelude::*;
use crate::abi::{AT_FDCWD, OpenFlagBits};
use crate::errno::{Errno, errno_code};

verus! {

/// What an open asks of the file system.
#[derive(Clone, Copy, Debug, PartialEq, Eq, Structural)]
pub struct OpenOptions {
    pub read: bool,
    pub write: bool,
    pub append: bool,
    pub truncate: bool,
    pub create: bool,
    pub execute: bool,
    pub directory: bool,
}

/// The options that open `flags` (a C `int`, read as its bit pattern) ask
/// for, with the flag bits of the target.
pub open spec fn spec_flags_to_options(flags: i32, bits: OpenFlagBits) -> OpenOptions {
    let f = flags as u32;
    let acc = f & 3;
    OpenOptions {
        read: acc == bits.rdonly || acc != bits.wronly,
        write: acc != bits.rdonly,
        append: f & bits.append != 0,
        truncate: f & bits.trunc != 0,
        create: f & bits.creat != 0,
        execute: f & bits.path != 0,
        directory: f & bits.directory != 0,
    }
}

/// Converts open flags to options. The access mode (the two low bits)
/// selects reading (`O_RDONLY`), writing (`O_WRONLY`) or both (any other
/// value); each of the other flags sets one option. `_mode` is not read.
pub fn flags_to_options(flags: i32, _mode: u32, bits: &OpenFlagBits) -> (o: OpenOptions)
    ensures
        o == spec_flags_to_options(flags, *bits),
        o.append == ((flags as u32) & bits.append != 0),
        o.truncate == ((flags as u32) & bits.trunc != 0),
        o.create == ((flags as u32) & bits.creat != 0),
        o.execute == ((flags as u32) & bits.path != 0),
        o.directory == ((flags as u32) & bits.directory != 0),
{
    let flags = flags as u32;
    let mut options = OpenOptions {
        read: false,
        write: false,
        append: false,
        truncate: false,
        create: false,
        execute: false,
        directory: false,
    };
    let acc = flags & 0b11;
    if acc == bits.rdonly {
        options.read = true;
    } else if acc == bits.wronly {
        options.write = true;
    } else {
        options.read = true;
        options.write = true;
    }
    if flags & bits.append != 0 {
        options.append = true;
    }
    if flags & bits.trunc != 0 {
        options.truncate = true;
    }
    if flags & bits.creat != 0 {
        options.create = true;
    }
    if flags & bits.path != 0 {
        options.execute = true;
    }
    if flags & bits.directory != 0 {
        options.directory = true;
    }
    options
}

/// Where a path is looked up from.
#[derive(Clone, Copy, Debug, PartialEq, Eq, Structural)]
pub enum PathBase {
    /// An absolute path, or a relative one with `AT_FDCWD`.
    CurrentDir,
    /// A relative path, from the directory open on this descriptor.
    Directory(i32),
}

/// Whether `path` starts with `/`.
pub open spec fn is_absolute(path: Seq<char>) -> bool {
    path.len() > 0 && path[0] == '/'
}

pub open spec fn spec_path_base(dirfd: i32, path: Seq<char>) -> PathBase {
    if is_absolute(path) || dirfd == AT_FDCWD {
        PathBase::CurrentDir
    } else {
        PathBase::Directory(dirfd)
    }
}

/// Where `openat(dirfd, path, ..)` looks `path` up.
pub fn path_base(dirfd: i32, path: &str) -> (b: PathBase)
    ensures
        b == spec_path_base(dirfd, path@),
        (b == PathBase::CurrentDir) == ((path@.len() > 0 && path@[0] == '/') || dirfd == AT_FDCWD),
        b != PathBase::CurrentDir ==> b == PathBase::Directory(dirfd),
{
    if (!path.is_empty() && path.get_char(0) == '/') || dirfd == AT_FDCWD {
        PathBase::CurrentDir
    } else {
        PathBase::Directory(dirfd)
    }
}

/// What `openat` does first.
#[derive(Clone, Copy, Debug, PartialEq, Eq, Structural)]
pub struct OpenatPlan {
    pub base: PathBase,
    pub options: OpenOptions,
    /// Whether a regular file is tried before a directory.
    pub try_file: bool,
}

/// The plan of `openat(dirfd, path, flags, mode)`: where to look, with
/// which options, and whether to try a regular file first (unless
/// `O_DIRECTORY` asks for a directory).
pub fn openat_plan(dirfd: i32, path: &str, flags: i32, mode: u32, bits: &OpenFlagBits)
    -> (p: OpenatPlan)
    ensures
        p.base == spec_path_base(dirfd, path@),
        p.options == spec_flags_to_options(flags, *bits),
        p.try_file == !p.options.directory,
{
    let options = flags_to_options(flags, mode, bits);
    OpenatPlan { base: path_base(dirfd, path), options, try_file: !options.directory }
}

/// What follows an attempt to open a regular file.
#[derive(Clone, Copy, Debug, PartialEq, Eq, Structural)]
pub enum FileAttempt {
    /// The file opened: give it a descriptor.
    Install(u64),
    /// The path names a directory: open it as one.
    OpenDirectory,
    /// Any other failure is the answer.
    Fail(Errno),
}

/// The next step of `openat` after the file system answered the attempt to
/// open a regular file (with the handle of the opened file, or an error).
pub fn openat_after_file(result: Result<u64, Errno>) -> (s: FileAttempt)
    ensures
        s == (match result {
            Ok(h) => FileAttempt::Install(h),
            Err(e) => if errno_code(e) == 21 {
                FileAttempt::OpenDirectory
            } else {
                FileAttempt::Fail(e)
            },
        }),
{
    match result {
        Ok(h) => FileAttempt::Install(h),
        Err(e) => {
            if e.code() == 21 {
                FileAttempt::OpenDirectory
            } else {
                FileAttempt::Fail(e)
            }
        },
    }
}

/// Every open asks for reading, writing or both; `O_RDONLY` only reading,
/// `O_WRONLY` only writing (where the two differ, as on every target).
pub proof fn law_open_asks_for_access(flags: i32, bits: OpenFlagBits)
    requires
        bits.rdonly != bits.wronly,
    ensures
        spec_flags_to_options(flags, bits).read || spec_flags_to_options(flags, bits).write,
        (flags as u32) & 3 == bits.rdonly ==> !spec_flags_to_options(flags, bits).write,
        (flags as u32) & 3 == bits.wronly ==> !spec_flags_to_options(flags, bits).read,
{
}

/// Each of the flags `O_APPEND`, `O_TRUNC`, `O_CREAT`, `O_PATH` and
/// `O_DIRECTORY` sets its option exactly when its bit is in the flags,
/// whatever the other bits; with the access mode in the two low bits,
/// reading is asked for unless the mode is `O_WRONLY`, writing unless it is
/// `O_RDONLY` (where the two differ).
pub proof fn law_each_flag_sets_its_option(flags: i32, bits: OpenFlagBits)
    ensures
        spec_flags_to_options(flags, bits).append == ((flags as u32) & bits.append != 0),
        spec_flags_to_options(flags, bits).truncate == ((flags as u32) & bits.trunc != 0),
        spec_flags_to_options(flags, bits).create == ((flags as u32) & bits.creat != 0),
        spec_flags_to_options(flags, bits).execute == ((flags as u32) & bits.path != 0),
        spec_flags_to_options(flags, bits).directory == ((flags as u32) & bits.directory != 0),
        bits.rdonly != bits.wronly ==> spec_flags_to_options(flags, bits).read == ((flags as u32)
            & 3 != bits.wronly),
        spec_flags_to_options(flags, bits).write == ((flags as u32) & 3 != bits.rdonly),
{
}

/// A relative path given with a descriptor other than `AT_FDCWD` is looked
/// up under the directory open on that descriptor; the current directory
/// is used exactly for an absolute path (one that starts with `/`) or
/// `AT_FDCWD`, whatever the path's other characters.
pub proof fn law_relative_paths_use_the_directory(dirfd: i32, path: Seq<char>)
    ensures
        !(path.len() > 0 && path[0] == '/') && dirfd != AT_FDCWD ==> spec_path_base(dirfd, path)
            == PathBase::Directory(dirfd),
        (spec_path_base(dirfd, path) == PathBase::CurrentDir) == ((path.len() > 0 && path[0]
            == '/') || dirfd == AT_FDCWD),
{
}

} // verus!
