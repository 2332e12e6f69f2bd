//! The descriptor system calls: `close`, `dup`, `dup2`, `fcntl`, and the
//! decision part of `lseek`.

use vstd::prelude::*;
use crate::abi::{F_DUPFD, F_DUPFD_CLOEXEC, F_GETFD, F_GETFL, F_SETFL, FD_CLOEXEC, OpenFlagBits};
use crate::errno::Errno;
use crate::fd_table::{FD_LIMIT, FdTable, fd_in_range, is_lowest_free, table_full};

verus! {

/// Closes `fd`: 0, or `EBADF` where `fd` is not open.
pub fn sys_close(table: &mut FdTable, fd: i32) -> (r: Result<isize, Errno>)
    requires
        old(table).wf(),
    ensures
        final(table).wf(),
        match r {
            Ok(v) => v == 0 && old(table)@.dom().contains(fd as int)
                && final(table)@ == old(table)@.remove(fd as int),
            Err(e) => e == Errno::EBADF && !old(table)@.dom().contains(fd as int)
                && final(table)@ == old(table)@,
        },
{
    table.close_file_like(fd)?;
    Ok(0)
}

/// The effect of duplicating `old_fd` in `m`: the lowest free descriptor
/// `new_fd` then refers to what `old_fd` refers to.
pub open spec fn dup_result(m: Map<int, u64>, old_fd: int, new_fd: int, m2: Map<int, u64>) -> bool {
    &&& m.dom().contains(old_fd)
    &&& is_lowest_free(m, new_fd)
    &&& m2 == m.insert(new_fd, m[old_fd])
}

/// Duplicates `old_fd` onto the lowest free descriptor: `EBADF` where
/// `old_fd` is not open, `EMFILE` where no descriptor is free.
pub fn dup_fd(table: &mut FdTable, old_fd: i32) -> (r: Result<isize, Errno>)
    requires
        old(table).wf(),
    ensures
        final(table).wf(),
        r is Ok <==> old(table)@.dom().contains(old_fd as int) && !table_full(old(table)@),
        match r {
            Ok(v) => dup_result(old(table)@, old_fd as int, v as int, final(table)@),
            Err(e) => final(table)@ == old(table)@ && e == (if old(table)@.dom().contains(old_fd as int) {
                Errno::EMFILE
            } else {
                Errno::EBADF
            }),
        },
{
    let f = table.get_file_like(old_fd)?;
    let new_fd = table.add_file_like(f)?;
    Ok(new_fd as isize)
}

/// `dup`: see `dup_fd`.
pub fn sys_dup(table: &mut FdTable, old_fd: i32) -> (r: Result<isize, Errno>)
    requires
        old(table).wf(),
    ensures
        final(table).wf(),
        r is Ok <==> old(table)@.dom().contains(old_fd as int) && !table_full(old(table)@),
        match r {
            Ok(v) => dup_result(old(table)@, old_fd as int, v as int, final(table)@),
            Err(e) => final(table)@ == old(table)@ && e == (if old(table)@.dom().contains(old_fd as int) {
                Errno::EMFILE
            } else {
                Errno::EBADF
            }),
        },
{
    dup_fd(table, old_fd)
}

/// Makes `new_fd` refer to what `old_fd` refers to, closing what `new_fd`
/// referred to before; nothing changes where the two are equal. `EBADF`
/// where `old_fd` is not open. A `new_fd` out of range with an open, other
/// `old_fd` is left out: there the call cannot be made.
pub fn sys_dup2(table: &mut FdTable, old_fd: i32, new_fd: i32) -> (r: Result<isize, Errno>)
    requires
        old(table).wf(),
        old(table)@.dom().contains(old_fd as int) && old_fd != new_fd
            ==> fd_in_range(new_fd as int),
    ensures
        final(table).wf(),
        match r {
            Ok(v) => v == new_fd && old(table)@.dom().contains(old_fd as int)
                && final(table)@ == old(table)@.insert(new_fd as int, old(table)@[old_fd as int]),
            Err(e) => e == Errno::EBADF && !old(table)@.dom().contains(old_fd as int)
                && final(table)@ == old(table)@,
        },
{
    let f = table.get_file_like(old_fd)?;
    if old_fd != new_fd {
        let _ = table.close_file_like(new_fd);
        table.place_at(new_fd, f);
    } else {
        assert(table@ =~= table@.insert(new_fd as int, f));
    }
    Ok(new_fd as isize)
}

/// What `fcntl` asks of the caller once the table has been dealt with.
#[derive(Clone, Copy, Debug, PartialEq, Eq, Structural)]
pub enum FcntlAction {
    /// The call is done; this is its result.
    Return(isize),
    /// Set or clear non-blocking mode on this file; the result is then 0.
    SetNonblocking { handle: u64, nonblocking: bool },
}

/// `fcntl(fd, cmd, arg)`. `F_DUPFD` and `F_DUPFD_CLOEXEC` duplicate `fd` as
/// `dup` does; `F_SETFL` sets non-blocking mode from `O_NONBLOCK` in `arg`
/// (and does nothing for descriptors 0, 1 and 2); `F_GETFD` answers
/// `FD_CLOEXEC`, `F_GETFL` answers `O_NONBLOCK`, any other command 0. The
/// value of `O_NONBLOCK` is the target's, from `bits`.
pub fn sys_fcntl(table: &mut FdTable, fd: i32, cmd: i32, arg: usize, bits: &OpenFlagBits)
    -> (r: Result<FcntlAction, Errno>)
    requires
        old(table).wf(),
    ensures
        final(table).wf(),
        ({
            let c = cmd as u32;
            let m = old(table)@;
            if c == F_DUPFD || c == F_DUPFD_CLOEXEC {
                &&& r is Ok <==> m.dom().contains(fd as int) && !table_full(m)
                &&& match r {
                    Ok(a) => exists|v: isize|
                        a == FcntlAction::Return(v)
                            && #[trigger] dup_result(m, fd as int, v as int, final(table)@),
                    Err(e) => final(table)@ == m && e == (if m.dom().contains(fd as int) {
                        Errno::EMFILE
                    } else {
                        Errno::EBADF
                    }),
                }
            } else {
                &&& final(table)@ == m
                &&& r == (if c == F_SETFL {
                    if fd == 0 || fd == 1 || fd == 2 {
                        Ok(FcntlAction::Return(0))
                    } else if m.dom().contains(fd as int) {
                        Ok(FcntlAction::SetNonblocking {
                            handle: m[fd as int],
                            nonblocking: arg & (bits.nonblock as usize) != 0,
                        })
                    } else {
                        Err(Errno::EBADF)
                    }
                } else if c == F_GETFD {
                    Ok(FcntlAction::Return(FD_CLOEXEC as isize))
                } else if c == F_GETFL {
                    Ok(FcntlAction::Return(bits.nonblock as isize))
                } else {
                    Ok(FcntlAction::Return(0))
                })
            }
        }),
{
    let c = cmd as u32;
    if c == F_DUPFD || c == F_DUPFD_CLOEXEC {
        let v = dup_fd(table, fd)?;
        Ok(FcntlAction::Return(v))
    } else if c == F_SETFL {
        if fd == 0 || fd == 1 || fd == 2 {
            return Ok(FcntlAction::Return(0));
        }
        let handle = table.get_file_like(fd)?;
        Ok(FcntlAction::SetNonblocking { handle, nonblocking: arg & (bits.nonblock as usize) != 0 })
    } else if c == F_GETFD {
        Ok(FcntlAction::Return(FD_CLOEXEC as isize))
    } else if c == F_GETFL {
        Ok(FcntlAction::Return(bits.nonblock as isize))
    } else {
        Ok(FcntlAction::Return(0))
    }
}

/// Where a seek starts from, and by how much it moves.
#[derive(Clone, Copy, Debug, PartialEq, Eq, Structural)]
pub enum SeekFrom {
    Start(u64),
    Current(i64),
    End(i64),
}

/// The seek that `lseek(fd, offset, whence)` asks for: `whence` 0, 1 and 2
/// seek from the start (the offset read as unsigned), the current position
/// and the end; any other `whence` is `EINVAL`.
pub fn seek_from_whence(offset: i64, whence: i32) -> (r: Result<SeekFrom, Errno>)
    ensures
        r == (if whence == 0 {
            Ok(SeekFrom::Start(offset as u64))
        } else if whence == 1 {
            Ok(SeekFrom::Current(offset))
        } else if whence == 2 {
            Ok(SeekFrom::End(offset))
        } else {
            Err(Errno::EINVAL)
        }),
{
    match whence {
        0 => Ok(SeekFrom::Start(offset as u64)),
        1 => Ok(SeekFrom::Current(offset)),
        2 => Ok(SeekFrom::End(offset)),
        _ => Err(Errno::EINVAL),
    }
}

/// The descriptor that a successful `dup` returns is determined by the
/// table: there is only one lowest free descriptor.
pub proof fn law_dup_fd_is_determined(m: Map<int, u64>, a: int, b: int)
    requires
        is_lowest_free(m, a),
        is_lowest_free(m, b),
    ensures
        a == b,
{
    if a < b {
        assert(m.dom().contains(a));
    } else if b < a {
        assert(m.dom().contains(b));
    }
}

/// In a table with nothing open, the first descriptor handed out is 0.
pub proof fn law_empty_table_gives_zero(fd: int)
    requires
        is_lowest_free(Map::<int, u64>::empty(), fd),
    ensures
        fd == 0,
{
    if fd > 0 {
        assert(Map::<int, u64>::empty().dom().contains(0));
    }
}

/// Where descriptors `0..n` are all open and `k < n` is closed, the next
/// descriptor handed out is `k`.
pub proof fn law_closed_descriptor_is_reused(m: Map<int, u64>, n: int, k: int, fd: int)
    requires
        0 <= k < n <= FD_LIMIT,
        forall|j: int| 0 <= j < n ==> #[trigger] m.dom().contains(j),
        is_lowest_free(m.remove(k), fd),
    ensures
        fd == k,
{
    if fd < k {
        assert(m.remove(k).dom().contains(fd));
    } else if fd > k {
        assert(m.remove(k).dom().contains(k));
    }
}

/// After `dup`, the new descriptor and the old one refer to the same file,
/// and every other descriptor is as it was.
pub proof fn law_dup_aliases(m: Map<int, u64>, old_fd: int, new_fd: int, m2: Map<int, u64>)
    requires
        dup_result(m, old_fd, new_fd, m2),
    ensures
        m2.dom().contains(new_fd),
        m2.dom().contains(old_fd),
        m2[new_fd] == m2[old_fd],
        m2[old_fd] == m[old_fd],
        forall|fd: int| fd != new_fd ==> (#[trigger] m2.dom().contains(fd) == m.dom().contains(fd)),
        forall|fd: int| fd != new_fd && m.dom().contains(fd) ==> #[trigger] m2[fd] == m[fd],
{
    assert(old_fd != new_fd);
}

/// Closing the descriptor that `dup` returned gives back the table as it
/// was before the `dup`.
pub proof fn law_close_undoes_dup(m: Map<int, u64>, old_fd: int, new_fd: int, m2: Map<int, u64>)
    requires
        dup_result(m, old_fd, new_fd, m2),
    ensures
        m2.remove(new_fd) == m,
{
    assert(m2.remove(new_fd) =~= m);
}

/// `dup2(fd, fd)` on an open `fd` changes nothing.
pub proof fn law_dup2_onto_itself_changes_nothing(m: Map<int, u64>, fd: int)
    requires
        m.dom().contains(fd),
    ensures
        m.insert(fd, m[fd]) == m,
{
    assert(m.insert(fd, m[fd]) =~= m);
}

/// After `dup2(old_fd, new_fd)`, `new_fd` refers to the file of `old_fd`,
/// `old_fd` is unchanged, and so is every descriptor other than `new_fd`.
pub proof fn law_dup2_aliases(m: Map<int, u64>, old_fd: int, new_fd: int)
    requires
        m.dom().contains(old_fd),
    ensures
        ({
            let m2 = m.insert(new_fd, m[old_fd]);
            &&& m2[new_fd] == m[old_fd]
            &&& m2[old_fd] == m[old_fd]
            &&& forall|fd: int|
                fd != new_fd ==> (#[trigger] m2.dom().contains(fd) == m.dom().contains(fd))
            &&& forall|fd: int| fd != new_fd && m.dom().contains(fd) ==> #[trigger] m2[fd] == m[fd]
        }),
{
}

/// After `close(fd)`, `fd` is no longer open and every other descriptor is
/// as it was.
pub proof fn law_close_affects_only_its_descriptor(m: Map<int, u64>, fd: int)
    ensures
        !m.remove(fd).dom().contains(fd),
        forall|g: int| g != fd ==> (#[trigger] m.remove(fd).dom().contains(g) == m.dom().contains(g)),
        forall|g: int| g != fd && m.dom().contains(g) ==> #[trigger] m.remove(fd)[g] == m[g],
{
}

} // verus!
