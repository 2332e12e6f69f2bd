//! `faccessat`: which owner permissions an access mode asks for, whether a
//! node grants them, and how the path is made absolute.

use vstd::prelude::*;
use crate::abi::{AT_FDCWD, OWNER_EXEC, OWNER_READ, OWNER_WRITE, R_OK, W_OK, X_OK};
use crate::errno::Errno;
use crate::open::is_absolute;

verus! {

/// The owner permissions that access `mode` asks for: read for `R_OK`,
/// write for `W_OK`, execute for `X_OK`.
pub open spec fn perms_for_mode(mode: u32) -> u16 {
    (if mode & R_OK != 0 { OWNER_READ } else { 0u16 })
        | (if mode & W_OK != 0 { OWNER_WRITE } else { 0u16 })
        | (if mode & X_OK != 0 { OWNER_EXEC } else { 0u16 })
}

/// An access mode is valid when it holds no bit but `R_OK`, `W_OK` and
/// `X_OK`.
pub open spec fn valid_access_mode(mode: u32) -> bool {
    mode & !(R_OK | W_OK | X_OK) == 0
}

/// The permissions that `mode` asks for, or `EINVAL` where it holds an
/// unknown bit.
pub fn access_perms(mode: u32) -> (r: Result<u16, Errno>)
    ensures
        r == (if valid_access_mode(mode) {
            Ok(perms_for_mode(mode))
        } else {
            Err(Errno::EINVAL)
        }),
{
    if mode & !(R_OK | W_OK | X_OK) != 0 {
        return Err(Errno::EINVAL);
    }
    let read: u16 = if mode & R_OK != 0 { OWNER_READ } else { 0 };
    let write: u16 = if mode & W_OK != 0 { OWNER_WRITE } else { 0 };
    let exec: u16 = if mode & X_OK != 0 { OWNER_EXEC } else { 0 };
    let perms: u16 = read | write | exec;
    Ok(perms)
}

/// Answers an access check: 0 where `granted` holds every permission of
/// `wanted`, `EACCES` otherwise.
pub fn check_permissions(granted: u16, wanted: u16) -> (r: Result<isize, Errno>)
    ensures
        r == (if granted & wanted == wanted {
            Ok(0isize)
        } else {
            Err(Errno::EACCES)
        }),
{
    if granted & wanted != wanted {
        return Err(Errno::EACCES);
    }
    Ok(0)
}

/// `dir`, a slash, and `path`.
pub open spec fn join_path(dir: Seq<char>, path: Seq<char>) -> Seq<char> {
    dir + seq!['/'] + path
}

/// The absolute path that `path` names relative to `dirfd`: `path` itself
/// where it is absolute; else under the current directory `cwd` where
/// `dirfd` is `AT_FDCWD`; else under the path of the directory open on
/// `dirfd`, which the caller looked up (or the error of that look-up).
pub fn resolve_path(dirfd: i32, path: &str, cwd: &str, dir_path: Result<&str, Errno>)
    -> (r: Result<String, Errno>)
    ensures
        r.is_ok() == (is_absolute(path@) || dirfd == AT_FDCWD || dir_path.is_ok()),
        r is Ok && !(path@.len() > 0 && path@[0] == '/') ==> {
            let dir = if dirfd == AT_FDCWD { cwd@ } else { dir_path->Ok_0@ };
            let out = r->Ok_0@;
            &&& out.len() == dir.len() + 1 + path@.len()
            &&& out.subrange(0, dir.len() as int) == dir
            &&& out[dir.len() as int] == '/'
            &&& out.subrange(dir.len() + 1int, out.len() as int) == path@
        },
        r is Ok && path@.len() > 0 && path@[0] == '/' ==> r->Ok_0@ == path@,
        match r {
            Ok(s) => s@ == (if is_absolute(path@) {
                path@
            } else if dirfd == AT_FDCWD {
                join_path(cwd@, path@)
            } else {
                join_path(dir_path->Ok_0@, path@)
            }),
            Err(e) => dir_path == Err::<&str, Errno>(e),
        },
{
    if !path.is_empty() && path.get_char(0) == '/' {
        return Ok(path.to_owned());
    }
    let dir = if dirfd == AT_FDCWD {
        cwd
    } else {
        dir_path?
    };
    let mut s = String::from_str(dir);
    let slash = "/";
    proof {
        reveal_strlit("/");
    }
    s.append(slash);
    s.append(path);
    proof {
        law_join_puts_a_slash_between(dir@, path@);
    }
    Ok(s)
}

/// An access mode is valid exactly when it is at most 7 (`R_OK | W_OK |
/// X_OK`).
pub proof fn law_valid_modes_are_small(mode: u32)
    ensures
        valid_access_mode(mode) <==> mode <= 7,
{
    assert((mode & !(4u32 | 2u32 | 1u32) == 0) <==> mode <= 7) by (bit_vector);
    assert(R_OK | W_OK | X_OK == 7u32) by (bit_vector);
}

/// Joining puts exactly one `/` between the directory and the path,
/// whatever the path starts with: the directory, then `/`, then the path.
pub proof fn law_join_puts_a_slash_between(dir: Seq<char>, path: Seq<char>)
    ensures
        join_path(dir, path).len() == dir.len() + 1 + path.len(),
        join_path(dir, path).subrange(0, dir.len() as int) == dir,
        join_path(dir, path)[dir.len() as int] == '/',
        join_path(dir, path).subrange(dir.len() + 1int, join_path(dir, path).len() as int) == path,
{
    let j = join_path(dir, path);
    assert(j.subrange(0, dir.len() as int) =~= dir);
    assert(j.subrange(dir.len() + 1int, j.len() as int) =~= path);
}

/// An access mode asks only for owner permissions, and for each exactly
/// when its bit is in the mode.
pub proof fn law_perms_follow_mode_bits(mode: u32)
    ensures
        perms_for_mode(mode) & !0o700u16 == 0,
        (perms_for_mode(mode) & OWNER_READ != 0) == (mode & R_OK != 0),
        (perms_for_mode(mode) & OWNER_WRITE != 0) == (mode & W_OK != 0),
        (perms_for_mode(mode) & OWNER_EXEC != 0) == (mode & X_OK != 0),
{
    assert(perms_for_mode(mode) & !0o700u16 == 0) by (bit_vector);
    assert((perms_for_mode(mode) & 0o400u16 != 0) == (mode & 4 != 0)) by (bit_vector);
    assert((perms_for_mode(mode) & 0o200u16 != 0) == (mode & 2 != 0)) by (bit_vector);
    assert((perms_for_mode(mode) & 0o100u16 != 0) == (mode & 1 != 0)) by (bit_vector);
}

/// A node that grants its owner reading, writing and execution passes
/// every access check; `F_OK` (mode 0) asks for nothing and passes on any
/// node.
pub proof fn law_full_owner_rights_pass(granted: u16, mode: u32)
    ensures
        granted & 0o700u16 == 0o700u16 ==> granted & perms_for_mode(mode) == perms_for_mode(mode),
        granted & perms_for_mode(0) == perms_for_mode(0),
{
    assert(granted & 0o700u16 == 0o700u16
        ==> granted & perms_for_mode(mode) == perms_for_mode(mode)) by (bit_vector);
    assert(granted & perms_for_mode(0) == perms_for_mode(0)) by (bit_vector);
}

} // verus!
