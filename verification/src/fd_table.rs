//! The table of open file descriptors of a process.
//!
//! A descriptor is an index below `FD_LIMIT`; each open one refers to an
//! open file, named here by a handle (`u64`) that the caller maps to the
//! file object. Several descriptors may share one handle.

use vstd::prelude::*;
use crate::errno::Errno;

verus! {

/// How many descriptors a process may have open.
pub const FD_LIMIT: usize = 1024;

/// Whether `fd` may name a descriptor at all.
pub open spec fn fd_in_range(fd: int) -> bool {
    0 <= fd < FD_LIMIT as int
}

/// `fd` is the lowest descriptor that is not open in `m`.
pub open spec fn is_lowest_free(m: Map<int, u64>, fd: int) -> bool {
    &&& fd_in_range(fd)
    &&& !m.dom().contains(fd)
    &&& forall|j: int| 0 <= j < fd ==> #[trigger] m.dom().contains(j)
}

/// Every descriptor is open in `m`.
pub open spec fn table_full(m: Map<int, u64>) -> bool {
    forall|j: int| fd_in_range(j) ==> #[trigger] m.dom().contains(j)
}

/// The descriptor table; its view maps each open descriptor to its handle.
pub struct FdTable {
    slots: Vec<Option<u64>>,
}

impl FdTable {
    /// The table holds one slot per descriptor.
    pub closed spec fn wf(&self) -> bool {
        self.slots.len() == FD_LIMIT
    }
}

impl View for FdTable {
    type V = Map<int, u64>;

    closed spec fn view(&self) -> Map<int, u64> {
        Map::new(
            |fd: int| fd_in_range(fd) && fd < self.slots.len() && self.slots@[fd] is Some,
            |fd: int| self.slots@[fd]->0,
        )
    }
}

impl FdTable {
    /// Only descriptors in range are ever open.
    pub proof fn lemma_open_in_range(&self)
        ensures
            forall|fd: int| #[trigger] self@.dom().contains(fd) ==> fd_in_range(fd),
    {
    }

    /// A table with no descriptor open.
    pub fn new() -> (t: FdTable)
        ensures
            t.wf(),
            t@ == Map::<int, u64>::empty(),
    {
        let mut slots: Vec<Option<u64>> = Vec::new();
        for i in 0..FD_LIMIT
            invariant
                slots.len() == i,
                forall|j: int| 0 <= j < i ==> slots@[j] is None,
        {
            slots.push(None);
        }
        let t = FdTable { slots };
        assert(t@ =~= Map::<int, u64>::empty());
        t
    }

    /// The handle that `fd` refers to, or `EBADF` where `fd` is not open.
    pub fn get_file_like(&self, fd: i32) -> (r: Result<u64, Errno>)
        requires
            self.wf(),
        ensures
            match r {
                Ok(h) => self@.dom().contains(fd as int) && h == self@[fd as int],
                Err(e) => !self@.dom().contains(fd as int) && e == Errno::EBADF,
            },
    {
        if fd < 0 || fd >= FD_LIMIT as i32 {
            return Err(Errno::EBADF);
        }
        match self.slots[fd as usize] {
            Some(h) => Ok(h),
            None => Err(Errno::EBADF),
        }
    }

    /// Opens the lowest free descriptor on `handle`; `EMFILE` where every
    /// descriptor is open already.
    pub fn add_file_like(&mut self, handle: u64) -> (r: Result<i32, Errno>)
        requires
            old(self).wf(),
        ensures
            final(self).wf(),
            r is Err <==> table_full(old(self)@),
            match r {
                Ok(fd) => is_lowest_free(old(self)@, fd as int)
                    && final(self)@ == old(self)@.insert(fd as int, handle),
                Err(e) => e == Errno::EMFILE && final(self)@ == old(self)@,
            },
    {
        let ghost m = self@;
        for i in 0..FD_LIMIT
            invariant
                self.slots.len() == FD_LIMIT,
                self@ == m,
                m == old(self)@,
                forall|j: int| 0 <= j < i ==> #[trigger] m.dom().contains(j),
        {
            if self.slots[i].is_none() {
                assert(!m.dom().contains(i as int));
                assert(!table_full(m));
                self.slots.set(i, Some(handle));
                assert(self@ =~= m.insert(i as int, handle));
                return Ok(i as i32);
            }
            assert(m.dom().contains(i as int));
        }
        Err(Errno::EMFILE)
    }

    /// Opens descriptor `fd` on `handle`, closing what it referred to before.
    pub fn place_at(&mut self, fd: i32, handle: u64)
        requires
            old(self).wf(),
            fd_in_range(fd as int),
        ensures
            final(self).wf(),
            final(self)@ == old(self)@.insert(fd as int, handle),
    {
        let ghost m = self@;
        self.slots.set(fd as usize, Some(handle));
        assert(self@ =~= m.insert(fd as int, handle));
    }

    /// Whether some open descriptor refers to `handle`.
    pub fn is_referenced(&self, handle: u64) -> (r: bool)
        requires
            self.wf(),
        ensures
            r == exists|fd: int| #[trigger] self@.dom().contains(fd) && self@[fd] == handle,
    {
        for i in 0..FD_LIMIT
            invariant
                self.wf(),
                forall|j: int| 0 <= j < i ==> !(#[trigger] self@.dom().contains(j) && self@[j] == handle),
        {
            if self.slots[i] == Some(handle) {
                assert(self@.dom().contains(i as int));
                return true;
            }
        }
        proof {
            assert forall|fd: int| #[trigger] self@.dom().contains(fd) implies self@[fd] != handle by {
                assert(0 <= fd < FD_LIMIT);
            }
        }
        false
    }

    /// Closes `fd` and gives back its handle; `EBADF` where `fd` is not open.
    pub fn close_file_like(&mut self, fd: i32) -> (r: Result<u64, Errno>)
        requires
            old(self).wf(),
        ensures
            final(self).wf(),
            match r {
                Ok(h) => old(self)@.dom().contains(fd as int) && h == old(self)@[fd as int]
                    && final(self)@ == old(self)@.remove(fd as int),
                Err(e) => !old(self)@.dom().contains(fd as int) && e == Errno::EBADF
                    && final(self)@ == old(self)@,
            },
    {
        let ghost m = self@;
        if fd < 0 || fd >= FD_LIMIT as i32 {
            return Err(Errno::EBADF);
        }
        match self.slots[fd as usize] {
            Some(h) => {
                self.slots.set(fd as usize, None);
                assert(self@ =~= m.remove(fd as int));
                Ok(h)
            },
            None => Err(Errno::EBADF),
        }
    }
}

} // verus!
