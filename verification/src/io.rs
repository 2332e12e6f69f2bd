//! The loops of vectored I/O (`readv`, `writev`) and of `sendfile`, as
//! state machines: the caller performs each transfer that a step asks
//! for and reports how many bytes moved.

use vstd::prelude::*;
use crate::errno::Errno;

verus! {

/// The most buffers one vectored call may name.
pub const IOV_MAX: usize = 1024;

/// The buffer size of `sendfile`'s copy loop.
pub const SENDFILE_CHUNK: usize = 0x4000;

/// The sum of a sequence of byte counts.
pub open spec fn sum(s: Seq<usize>) -> int
    decreases s.len(),
{
    if s.len() == 0 {
        0
    } else {
        sum(s.drop_last()) + s.last()
    }
}

proof fn lemma_sum_push(s: Seq<usize>, x: usize)
    ensures
        sum(s.push(x)) == sum(s) + x,
{
    assert(s.push(x).drop_last() =~= s);
}

/// The buffer count of a vectored call: `EINVAL` above `IOV_MAX`.
pub fn check_iov_count(iocnt: usize) -> (r: Result<(), Errno>)
    ensures
        r == (if iocnt <= IOV_MAX {
            Ok(())
        } else {
            Err(Errno::EINVAL)
        }),
{
    if iocnt > IOV_MAX {
        return Err(Errno::EINVAL);
    }
    Ok(())
}

/// What a vectored call does next.
#[derive(Clone, Copy, Debug, PartialEq, Eq, Structural)]
pub enum IoStep {
    /// Transfer to or from buffer `index`, of `len` bytes, then report
    /// with `complete`.
    Transfer { index: usize, len: usize },
    /// The call is over; this is its result.
    Finish(isize),
    /// A transfer failed; the call ends with this error.
    Fail(Errno),
}

/// The state of a vectored call.
pub struct VectoredIoView {
    /// The buffer lengths.
    pub lens: Seq<usize>,
    /// Buffers below `pos` have been considered.
    pub pos: int,
    /// Bytes moved so far.
    pub total: int,
    /// A transfer moved fewer bytes than its buffer holds.
    pub stopped: bool,
    /// The buffer whose transfer has not been reported yet.
    pub pending: Option<int>,
    /// The error that a transfer failed with, which ends the call.
    pub failed: Option<Errno>,
    /// The buffers transferred (or being transferred), in order.
    pub issued: Seq<int>,
    /// The bytes each reported transfer moved.
    pub done: Seq<usize>,
}

impl VectoredIoView {
    pub open spec fn wf(self) -> bool {
        &&& 0 <= self.pos <= self.lens.len() <= IOV_MAX
        &&& self.issued.len() == self.done.len() + (if self.pending is Some || self.failed is Some {
            1int
        } else {
            0int
        })
        &&& (self.failed is Some ==> self.pending is None && !self.stopped)
        &&& (self.pending matches Some(i) ==> self.issued.len() > 0 && self.issued.last() == i
            && !self.stopped)
        &&& forall|k: int|
            0 <= k < self.issued.len() ==> 0 <= #[trigger] self.issued[k] < self.pos
                && self.lens[self.issued[k]] > 0
        &&& forall|k1: int, k2: int|
            0 <= k1 < k2 < self.issued.len() ==> self.issued[k1] < self.issued[k2]
        &&& forall|j: int|
            0 <= j < self.pos && #[trigger] self.lens[j] > 0 ==> self.issued.contains(j)
        &&& self.total == sum(self.done)
        &&& 0 <= self.total <= isize::MAX
        &&& forall|k: int|
            0 <= k < self.done.len() - 1 ==> #[trigger] self.done[k] >= self.lens[self.issued[k]]
        &&& self.stopped == (self.done.len() > 0 && self.done.last() < self.lens[self.issued[self.done.len() - 1]])
    }
}

/// A vectored read or write in progress.
pub struct VectoredIo {
    lens: Vec<usize>,
    pos: usize,
    total: isize,
    stopped: bool,
    pending: Option<usize>,
    failed: Option<Errno>,
    issued: Ghost<Seq<int>>,
    done: Ghost<Seq<usize>>,
}

impl View for VectoredIo {
    type V = VectoredIoView;

    closed spec fn view(&self) -> VectoredIoView {
        VectoredIoView {
            lens: self.lens@,
            pos: self.pos as int,
            total: self.total as int,
            stopped: self.stopped,
            pending: match self.pending {
                Some(i) => Some(i as int),
                None => None,
            },
            failed: self.failed,
            issued: self.issued@,
            done: self.done@,
        }
    }
}

impl VectoredIo {
    /// Starts a vectored call over buffers of the given lengths.
    pub fn new(lens: Vec<usize>) -> (v: VectoredIo)
        requires
            lens.len() <= IOV_MAX,
        ensures
            v@.wf(),
            v@ == (VectoredIoView {
                lens: lens@,
                pos: 0,
                total: 0,
                stopped: false,
                pending: None,
                failed: None,
                issued: Seq::empty(),
                done: Seq::empty(),
            }),
    {
        VectoredIo {
            lens,
            pos: 0,
            total: 0,
            stopped: false,
            pending: None,
            failed: None,
            issued: Ghost(Seq::empty()),
            done: Ghost(Seq::empty()),
        }
    }

    /// The next step: the error of a failed transfer; else the next
    /// non-empty buffer, unless a transfer came up short or no non-empty
    /// buffer is left, in which case the call finishes with the bytes moved
    /// so far.
    pub fn next_step(&mut self) -> (r: IoStep)
        requires
            old(self)@.wf(),
            old(self)@.pending is None,
        ensures
            final(self)@.wf(),
            match r {
                IoStep::Transfer { index, len } => {
                    let o = old(self)@;
                    &&& o.failed is None
                    &&& !o.stopped
                    &&& o.pos <= index < o.lens.len()
                    &&& len == o.lens[index as int]
                    &&& len > 0
                    &&& forall|j: int| o.pos <= j < index ==> o.lens[j] == 0
                    &&& final(self)@ == VectoredIoView {
                        pos: index + 1,
                        pending: Some(index as int),
                        issued: o.issued.push(index as int),
                        ..o
                    }
                },
                IoStep::Fail(e) => old(self)@.failed == Some(e) && final(self)@ == old(self)@,
                IoStep::Finish(t) => {
                    &&& old(self)@.failed is None
                    &&& t == old(self)@.total
                    &&& t == sum(old(self)@.done)
                    &&& (old(self)@.stopped || forall|j: int|
                        old(self)@.pos <= j < old(self)@.lens.len() ==> old(self)@.lens[j] == 0)
                    &&& final(self)@ == old(self)@
                },
            },
    {
        if let Some(e) = self.failed {
            return IoStep::Fail(e);
        }
        if self.stopped {
            return IoStep::Finish(self.total);
        }
        let mut i = self.pos;
        let n = self.lens.len();
        while i < n
            invariant
                self@ == old(self)@,
                old(self)@.wf(),
                old(self)@.pending is None,
                old(self)@.failed is None,
                !old(self)@.stopped,
                old(self)@.pos <= i <= n,
                n == self.lens.len(),
                forall|j: int| old(self)@.pos <= j < i ==> self.lens@[j] == 0,
            decreases n - i,
        {
            if self.lens[i] > 0 {
                let ghost o = self@;
                let len = self.lens[i];
                self.pos = i + 1;
                self.pending = Some(i);
                self.issued = Ghost(self.issued@.push(i as int));
                proof {
                    let v = self@;
                    assert forall|k: int| 0 <= k < v.issued.len() implies 0 <= #[trigger] v.issued[k]
                        < v.pos && v.lens[v.issued[k]] > 0 by {
                        if k < o.issued.len() {
                            assert(v.issued[k] == o.issued[k]);
                        }
                    }
                    assert forall|j: int| 0 <= j < v.pos && #[trigger] v.lens[j] > 0 implies v.issued.contains(j) by {
                        if j < o.pos {
                            let k = choose|k: int| 0 <= k < o.issued.len() && o.issued[k] == j;
                            assert(v.issued[k] == j);
                        } else {
                            assert(v.issued[v.issued.len() - 1] == j);
                        }
                    }
                    assert forall|k: int| 0 <= k < v.done.len() - 1 implies #[trigger] v.done[k]
                        >= v.lens[v.issued[k]] by {
                        assert(v.issued[k] == o.issued[k]);
                    }
                    if v.done.len() > 0 {
                        assert(v.issued[v.done.len() - 1] == o.issued[o.done.len() - 1]);
                    }
                }
                return IoStep::Transfer { index: i, len };
            }
            i = i + 1;
        }
        IoStep::Finish(self.total)
    }

    /// Reports that the pending transfer moved `transferred` bytes. A
    /// transfer shorter than its buffer ends the call.
    pub fn complete(&mut self, transferred: usize)
        requires
            old(self)@.wf(),
            old(self)@.pending is Some,
            old(self)@.total + transferred <= isize::MAX,
        ensures
            final(self)@.wf(),
            ({
                let o = old(self)@;
                final(self)@ == VectoredIoView {
                    total: o.total + transferred,
                    stopped: transferred < o.lens[o.pending->0],
                    pending: None,
                    done: o.done.push(transferred),
                    ..o
                }
            }),
    {
        let ghost o = self@;
        let i = match self.pending {
            Some(i) => i,
            None => 0,
        };
        self.total = self.total + transferred as isize;
        self.stopped = transferred < self.lens[i];
        self.pending = None;
        self.done = Ghost(self.done@.push(transferred));
        proof {
            lemma_sum_push(o.done, transferred);
            let v = self@;
            assert forall|k: int| 0 <= k < v.done.len() - 1 implies #[trigger] v.done[k]
                >= v.lens[v.issued[k]] by {
                assert(v.done[k] == o.done[k]);
            }
            assert(v.issued[v.done.len() - 1] == i);
        }
    }

    /// Reports that the pending transfer failed with `e`: the call ends
    /// with that error and asks for no further transfer.
    pub fn fail(&mut self, e: Errno)
        requires
            old(self)@.wf(),
            old(self)@.pending is Some,
        ensures
            final(self)@.wf(),
            final(self)@ == (VectoredIoView { pending: None, failed: Some(e), ..old(self)@ }),
    {
        self.pending = None;
        self.failed = Some(e);
    }
}

/// The bytes that the first `n` issued buffers hold.
pub open spec fn issued_capacity(lens: Seq<usize>, issued: Seq<int>, n: int) -> int
    decreases n,
{
    if n <= 0 {
        0
    } else {
        issued_capacity(lens, issued, n - 1) + lens[issued[n - 1]]
    }
}

proof fn lemma_prefix_sum_bounded(v: VectoredIoView, n: int)
    requires
        0 <= n <= v.done.len(),
        forall|k: int| 0 <= k < v.done.len() ==> #[trigger] v.done[k] <= v.lens[v.issued[k]],
    ensures
        sum(v.done.take(n)) <= issued_capacity(v.lens, v.issued, n),
    decreases n,
{
    if n > 0 {
        lemma_prefix_sum_bounded(v, n - 1);
        assert(v.done.take(n).drop_last() =~= v.done.take(n - 1));
        assert(v.done.take(n).last() == v.done[n - 1]);
    }
}

/// Where no transfer reported more bytes than its buffer holds, a vectored
/// call has moved at most the bytes of the buffers it transferred.
pub proof fn law_total_bounded_by_buffers(v: VectoredIoView)
    requires
        v.wf(),
        forall|k: int| 0 <= k < v.done.len() ==> #[trigger] v.done[k] <= v.lens[v.issued[k]],
    ensures
        v.total <= issued_capacity(v.lens, v.issued, v.done.len() as int),
{
    lemma_prefix_sum_bounded(v, v.done.len() as int);
    assert(v.done.take(v.done.len() as int) =~= v.done);
}

/// A vectored call that ends without a short transfer has moved every
/// non-empty buffer, each in full.
pub proof fn law_unstopped_call_moves_every_buffer(v: VectoredIoView)
    requires
        v.wf(),
        v.pending is None,
        !v.stopped,
        forall|j: int| v.pos <= j < v.lens.len() ==> v.lens[j] == 0,
    ensures
        forall|j: int| 0 <= j < v.lens.len() && v.lens[j] > 0 ==> v.issued.contains(j),
        forall|k: int| 0 <= k < v.done.len() ==> #[trigger] v.done[k] >= v.lens[v.issued[k]],
{
    assert forall|j: int| 0 <= j < v.lens.len() && v.lens[j] > 0 implies v.issued.contains(j) by {
        assert(v.lens[j] > 0);
    }
}

/// Where `sendfile`'s copy loop stands.
#[derive(Clone, Copy, Debug, PartialEq, Eq, Structural)]
pub enum SendPhase {
    /// About to read the next chunk.
    Reading,
    /// A chunk of this many bytes was read and is to be written.
    Writing(usize),
    /// The copy is over.
    Done,
    /// A read or a write failed with this error, which ends the copy.
    Failed(Errno),
}

/// What `sendfile`'s copy loop does next.
#[derive(Clone, Copy, Debug, PartialEq, Eq, Structural)]
pub enum SendStep {
    /// Read at most `max` bytes from the source: at `offset` where there is
    /// one, else from its current position. Report with `read_done`.
    Read { offset: Option<u64>, max: usize },
    /// Write the `len` bytes just read. Report with `write_done`.
    Write { len: usize },
    /// The copy is over; this many bytes were sent.
    Finish(usize),
    /// A read or a write failed; the copy ends with this error.
    Fail(Errno),
}

/// The state of a `sendfile` copy.
pub struct SendfileView {
    /// The explicit source offset, advanced by each read.
    pub offset: Option<u64>,
    pub total: int,
    pub phase: SendPhase,
    /// The bytes that each complete write moved.
    pub chunks: Seq<usize>,
}

impl SendfileView {
    pub open spec fn wf(self) -> bool {
        &&& self.total == sum(self.chunks)
        &&& 0 <= self.total <= usize::MAX
        &&& (self.phase matches SendPhase::Writing(n) ==> 0 < n <= SENDFILE_CHUNK)
    }
}

/// A `sendfile` copy in progress: read a chunk, stop at the end of the
/// source, write the chunk, stop at a short write.
pub struct Sendfile {
    offset: Option<u64>,
    total: usize,
    phase: SendPhase,
    chunks: Ghost<Seq<usize>>,
}

impl View for Sendfile {
    type V = SendfileView;

    closed spec fn view(&self) -> SendfileView {
        SendfileView {
            offset: self.offset,
            total: self.total as int,
            phase: self.phase,
            chunks: self.chunks@,
        }
    }
}

impl Sendfile {
    /// Starts a copy, reading at `offset` where one is given.
    pub fn new(offset: Option<u64>) -> (s: Sendfile)
        ensures
            s@.wf(),
            s@ == (SendfileView {
                offset,
                total: 0,
                phase: SendPhase::Reading,
                chunks: Seq::empty(),
            }),
    {
        Sendfile { offset, total: 0, phase: SendPhase::Reading, chunks: Ghost(Seq::empty()) }
    }

    /// Starts a copy after checking its source: reading at an explicit
    /// offset needs a regular file, else `ESPIPE`.
    pub fn start(offset: Option<u64>, source_is_file: bool) -> (r: Result<Sendfile, Errno>)
        ensures
            match r {
                Ok(s) => (offset is None || source_is_file) && s@.wf() && s@ == (SendfileView {
                    offset,
                    total: 0,
                    phase: SendPhase::Reading,
                    chunks: Seq::empty(),
                }),
                Err(e) => offset is Some && !source_is_file && e == Errno::ESPIPE,
            },
    {
        if offset.is_some() && !source_is_file {
            return Err(Errno::ESPIPE);
        }
        Ok(Sendfile::new(offset))
    }

    /// The explicit source offset as it stands.
    pub fn offset(&self) -> (o: Option<u64>)
        ensures
            o == self@.offset,
    {
        self.offset
    }

    /// The next step.
    pub fn next_step(&self) -> (r: SendStep)
        requires
            self@.wf(),
        ensures
            r == (match self@.phase {
                SendPhase::Reading => SendStep::Read { offset: self@.offset, max: SENDFILE_CHUNK },
                SendPhase::Writing(n) => SendStep::Write { len: n },
                SendPhase::Done => SendStep::Finish(self@.total as usize),
                SendPhase::Failed(e) => SendStep::Fail(e),
            }),
    {
        match self.phase {
            SendPhase::Reading => SendStep::Read { offset: self.offset, max: SENDFILE_CHUNK },
            SendPhase::Writing(n) => SendStep::Write { len: n },
            SendPhase::Done => SendStep::Finish(self.total),
            SendPhase::Failed(e) => SendStep::Fail(e),
        }
    }

    /// Reports that a read moved `n` bytes: the offset advances by `n`, and
    /// the copy ends at an empty read.
    pub fn read_done(&mut self, n: usize)
        requires
            old(self)@.wf(),
            old(self)@.phase == SendPhase::Reading,
            n <= SENDFILE_CHUNK,
            old(self)@.offset matches Some(o) ==> o + n <= u64::MAX,
        ensures
            final(self)@.wf(),
            final(self)@ == (SendfileView {
                offset: match old(self)@.offset {
                    Some(o) => Some((o + n) as u64),
                    None => None,
                },
                phase: if n == 0 {
                    SendPhase::Done
                } else {
                    SendPhase::Writing(n)
                },
                ..old(self)@
            }),
    {
        self.offset = match self.offset {
            Some(o) => Some(o + n as u64),
            None => None,
        };
        self.phase = if n == 0 {
            SendPhase::Done
        } else {
            SendPhase::Writing(n)
        };
    }

    /// Reports that a write moved `w` bytes: a short write ends the copy
    /// without counting it; a complete one counts and the loop reads on.
    pub fn write_done(&mut self, w: usize)
        requires
            old(self)@.wf(),
            old(self)@.phase is Writing,
            w >= old(self)@.phase->Writing_0 ==> old(self)@.total + w <= usize::MAX,
        ensures
            final(self)@.wf(),
            ({
                let o = old(self)@;
                if w < o.phase->Writing_0 {
                    final(self)@ == SendfileView { phase: SendPhase::Done, ..o }
                } else {
                    final(self)@ == SendfileView {
                        total: o.total + w,
                        phase: SendPhase::Reading,
                        chunks: o.chunks.push(w),
                        ..o
                    }
                }
            }),
    {
        let n = match self.phase {
            SendPhase::Writing(n) => n,
            _ => 0,
        };
        if w < n {
            self.phase = SendPhase::Done;
        } else {
            proof {
                lemma_sum_push(self.chunks@, w);
            }
            self.total = self.total + w;
            self.phase = SendPhase::Reading;
            self.chunks = Ghost(self.chunks@.push(w));
        }
    }

    /// Reports that the read or write asked for failed with `e`: the copy
    /// ends with that error and asks for nothing more.
    pub fn fail(&mut self, e: Errno)
        requires
            old(self)@.wf(),
            old(self)@.phase == SendPhase::Reading || old(self)@.phase is Writing,
        ensures
            final(self)@.wf(),
            final(self)@ == (SendfileView { phase: SendPhase::Failed(e), ..old(self)@ }),
    {
        self.phase = SendPhase::Failed(e);
    }
}

} // verus!
