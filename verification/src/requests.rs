//! The fixed-capacity request pool.
//!
//! Every request control block is allocated once, at construction, at a
//! stable address the kernel may hold while the request is in flight. Inside
//! this model a request is named by its index in the pool and carries the
//! address a host assigned to its control block. A request is always in
//! exactly one of three places: on the ready list, on the outstanding list
//! (submitted to the kernel, completion not yet observed), or detached while
//! the submission path populates and submits it.

use vstd::prelude::*;

use crate::Command;
use crate::abi;
use crate::abi::Submission;

verus! {

/// Where a request currently is.
#[derive(Clone, Copy, Debug, PartialEq, Eq, Structural)]
pub enum Slot {
    /// On the ready list, available for reuse.
    Ready,
    /// Held by the submission path while being populated and submitted.
    Detached,
    /// Submitted to the kernel; its completion has not been observed yet.
    Outstanding,
}

/// One request control block: the stable address the kernel knows it by, the
/// image of its kernel submission structure, whether its one-shot result
/// sender is populated and unconsumed, and which list it is on.
#[derive(Clone, Copy, Debug, PartialEq, Eq, Structural)]
pub struct Request {
    /// The stable address of this request's control block, assigned at pool
    /// construction and never changed; the kernel echoes it back as the
    /// user-data word of the completion event.
    pub addr: u64,
    /// The image of the kernel submission control block.
    pub iocb: Submission,
    /// True while the one-shot sender for the result is populated and has
    /// not been consumed by delivery or recycling.
    pub has_sender: bool,
    /// Which list the request is on, if any.
    pub slot: Slot,
}

impl Request {
    /// The address by which the kernel will name this request.
    pub fn aio_addr(&self) -> (r: u64)
        ensures
            r == self.addr,
    {
        self.addr
    }

    /// Populate the submission control block for one command: the opcode,
    /// offset, buffer and length from the command, the sync-level bits plus
    /// the event-descriptor signal bit as flags, the event descriptor, the
    /// target file descriptor, and this request's own address as the
    /// user-data word. Records that the result sender is populated.
    pub fn set_payload(&mut self, eventfd: i32, fd: i32, command: Command)
        requires
            eventfd >= 0,
        ensures
            final(self).addr == old(self).addr,
            final(self).slot == old(self).slot,
            final(self).has_sender,
            final(self).iocb == (Submission {
                user_data: old(self).addr,
                opcode: command.opcode,
                fd: fd,
                buf: command.buf,
                len: command.len,
                offset: command.offset,
                flags: abi::IOCB_FLAG_RESFD | command.flags,
                resfd: eventfd as u32,
            }),
    {
        self.iocb = Submission {
            user_data: self.addr,
            opcode: command.opcode,
            fd: fd,
            buf: command.buf,
            len: command.len,
            offset: command.offset,
            flags: abi::IOCB_FLAG_RESFD | command.flags,
            resfd: eventfd as u32,
        };
        self.has_sender = true;
    }
}

/// How many requests of a pool slice are in the given place.
pub open spec fn count_slot(s: Seq<Request>, t: Slot) -> int
    decreases s.len(),
{
    if s.len() == 0 {
        0
    } else {
        count_slot(s.drop_last(), t) + if s.last().slot == t {
            1int
        } else {
            0int
        }
    }
}

/// The three places partition the pool: the counts sum to its size.
pub proof fn lemma_count_partition(s: Seq<Request>)
    ensures
        count_slot(s, Slot::Ready) + count_slot(s, Slot::Detached) + count_slot(
            s,
            Slot::Outstanding,
        ) == s.len(),
    decreases s.len(),
{
    if s.len() > 0 {
        lemma_count_partition(s.drop_last());
    }
}

/// Replacing one request changes each count by how the old and new request
/// match the counted place.
pub proof fn lemma_count_update(s: Seq<Request>, i: int, r: Request, t: Slot)
    requires
        0 <= i < s.len(),
    ensures
        count_slot(s.update(i, r), t) == count_slot(s, t) - (if s[i].slot == t {
            1int
        } else {
            0int
        }) + (if r.slot == t {
            1int
        } else {
            0int
        }),
    decreases s.len(),
{
    if i == s.len() - 1 {
        assert(s.update(i, r).drop_last() =~= s.drop_last());
    } else {
        lemma_count_update(s.drop_last(), i, r, t);
        assert(s.update(i, r).drop_last() =~= s.drop_last().update(i, r));
    }
}

/// A positive count yields a witness.
pub proof fn lemma_count_witness(s: Seq<Request>, t: Slot) -> (i: int)
    requires
        count_slot(s, t) > 0,
    ensures
        0 <= i < s.len() && s[i].slot == t,
    decreases s.len(),
{
    if s.last().slot == t {
        s.len() - 1
    } else {
        lemma_count_witness(s.drop_last(), t)
    }
}

/// A slice with no request in the given place counts zero there.
proof fn lemma_count_absent(s: Seq<Request>, t: Slot)
    requires
        forall|i: int| 0 <= i < s.len() ==> s[i].slot != t,
    ensures
        count_slot(s, t) == 0,
    decreases s.len(),
{
    if s.len() > 0 {
        lemma_count_absent(s.drop_last(), t);
    }
}

/// The fixed-capacity pool: every request (owning), plus the ready list as
/// indices into the pool. The outstanding list is the set of requests marked
/// [`Slot::Outstanding`].
pub struct Requests {
    /// All requests, created once; a request never moves.
    pub entries: Vec<Request>,
    /// Indices of the requests that are ready for reuse; the last element is
    /// the head, the first taken.
    pub ready: Vec<usize>,
}

impl Requests {
    /// The fixed number of requests, set at construction.
    pub open spec fn capacity(self) -> int {
        self.entries@.len() as int
    }

    pub open spec fn n_ready(self) -> int {
        count_slot(self.entries@, Slot::Ready)
    }

    pub open spec fn n_detached(self) -> int {
        count_slot(self.entries@, Slot::Detached)
    }

    pub open spec fn n_outstanding(self) -> int {
        count_slot(self.entries@, Slot::Outstanding)
    }

    /// Well-formedness: the ready list holds exactly the requests marked
    /// ready, each once; control-block addresses are distinct; and a request
    /// the kernel holds is seeded, with its own address as user-data and its
    /// sender populated.
    pub open spec fn wf(self) -> bool {
        &&& forall|k: int|
            0 <= k < self.ready@.len() ==> (#[trigger] self.ready@[k]) < self.entries@.len()
        &&& forall|k1: int, k2: int|
            0 <= k1 < k2 < self.ready@.len() ==> self.ready@[k1] != self.ready@[k2]
        &&& forall|k: int|
            0 <= k < self.ready@.len() ==> self.entries@[#[trigger] self.ready@[k] as int].slot
                == Slot::Ready
        &&& forall|i: int|
            0 <= i < self.entries@.len() && (#[trigger] self.entries@[i]).slot == Slot::Ready
                ==> self.ready@.contains(i as usize)
        &&& forall|i: int, j: int|
            0 <= i < j < self.entries@.len() ==> self.entries@[i].addr != self.entries@[j].addr
        &&& forall|i: int|
            0 <= i < self.entries@.len() && (#[trigger] self.entries@[i]).slot == Slot::Outstanding
                ==> (self.entries@[i].has_sender && self.entries@[i].iocb.user_data
                == self.entries@[i].addr)
    }

    /// Build a pool of one request per given control-block address, all on
    /// the ready list, none seeded. The addresses must be distinct: the
    /// kernel tells completions apart by them.
    pub fn new(addrs: &Vec<u64>) -> (r: Requests)
        requires
            forall|i: int, j: int| 0 <= i < j < addrs@.len() ==> addrs@[i] != addrs@[j],
        ensures
            r.wf(),
            r.capacity() == addrs@.len(),
            r.n_ready() == addrs@.len(),
            r.n_detached() == 0,
            r.n_outstanding() == 0,
            r.ready@.len() == addrs@.len(),
            forall|i: int|
                0 <= i < addrs@.len() ==> (#[trigger] r.entries@[i]) == (Request {
                    addr: addrs@[i],
                    iocb: Submission {
                        user_data: 0u64,
                        opcode: 0u32,
                        fd: 0i32,
                        buf: 0u64,
                        len: 0u64,
                        offset: 0u64,
                        flags: 0u32,
                        resfd: 0u32,
                    },
                    has_sender: false,
                    slot: Slot::Ready,
                }),
    {
        let n = addrs.len();
        let mut entries: Vec<Request> = Vec::new();
        let mut ready: Vec<usize> = Vec::new();
        let mut i: usize = 0;
        while i < n
            invariant
                i <= n,
                n == addrs@.len(),
                entries@.len() == i,
                ready@.len() == i,
                forall|k: int| 0 <= k < i ==> #[trigger] ready@[k] == k,
                forall|k: int|
                    0 <= k < i ==> (#[trigger] entries@[k]) == (Request {
                        addr: addrs@[k],
                        iocb: Submission {
                            user_data: 0u64,
                            opcode: 0u32,
                            fd: 0i32,
                            buf: 0u64,
                            len: 0u64,
                            offset: 0u64,
                            flags: 0u32,
                            resfd: 0u32,
                        },
                        has_sender: false,
                        slot: Slot::Ready,
                    }),
            decreases n - i,
        {
            entries.push(
                Request {
                    addr: addrs[i],
                    iocb: Submission::zeroed(),
                    has_sender: false,
                    slot: Slot::Ready,
                },
            );
            ready.push(i);
            i = i + 1;
        }
        let r = Requests { entries, ready };
        proof {
            assert forall|i: int|
                0 <= i < r.entries@.len() && (#[trigger] r.entries@[i]).slot
                    == Slot::Ready implies r.ready@.contains(i as usize) by {
                assert(r.ready@[i] == i as usize);
            }
            lemma_count_absent(r.entries@, Slot::Detached);
            lemma_count_absent(r.entries@, Slot::Outstanding);
            lemma_count_partition(r.entries@);
        }
        r
    }

    /// Pop the head of the ready list; the request becomes detached, for the
    /// submission path to populate. Admission must already guarantee a ready
    /// request exists.
    pub fn take(&mut self) -> (id: usize)
        requires
            old(self).wf(),
            old(self).ready@.len() > 0,
        ensures
            final(self).wf(),
            id < old(self).entries@.len(),
            id == old(self).ready@.last(),
            old(self).entries@[id as int].slot == Slot::Ready,
            final(self).ready@ == old(self).ready@.drop_last(),
            final(self).entries@ == old(self).entries@.update(
                id as int,
                (Request { slot: Slot::Detached, ..old(self).entries@[id as int] }),
            ),
    {
        let id = self.ready.pop().unwrap();
        self.entries[id].slot = Slot::Detached;
        let cap = self.entries.len();
        proof {
            lemma_take_preserves_wf(*old(self), *self, id);
        }
        id
    }

    /// Populate the detached request `id` for one command on file `fd`,
    /// registering the event descriptor and stamping the request's own
    /// address as the user-data word.
    pub fn seed(&mut self, id: usize, eventfd: i32, fd: i32, command: Command)
        requires
            old(self).wf(),
            id < old(self).entries@.len(),
            old(self).entries@[id as int].slot == Slot::Detached,
            eventfd >= 0,
        ensures
            final(self).wf(),
            final(self).ready@ == old(self).ready@,
            final(self).entries@ == old(self).entries@.update(
                id as int,
                (Request {
                    addr: old(self).entries@[id as int].addr,
                    iocb: Submission {
                        user_data: old(self).entries@[id as int].addr,
                        opcode: command.opcode,
                        fd: fd,
                        buf: command.buf,
                        len: command.len,
                        offset: command.offset,
                        flags: abi::IOCB_FLAG_RESFD | command.flags,
                        resfd: eventfd as u32,
                    },
                    has_sender: true,
                    slot: Slot::Detached,
                }),
            ),
    {
        let e = &mut self.entries[id];
        e.set_payload(eventfd, fd, command);
    }

    /// Push the populated, submitted request `id` onto the outstanding list:
    /// the kernel now holds its address.
    pub fn return_in_flight(&mut self, id: usize)
        requires
            old(self).wf(),
            id < old(self).entries@.len(),
            old(self).entries@[id as int].slot == Slot::Detached,
            old(self).entries@[id as int].has_sender,
            old(self).entries@[id as int].iocb.user_data == old(self).entries@[id as int].addr,
        ensures
            final(self).wf(),
            final(self).ready@ == old(self).ready@,
            final(self).entries@ == old(self).entries@.update(
                id as int,
                (Request { slot: Slot::Outstanding, ..old(self).entries@[id as int] }),
            ),
    {
        self.entries[id].slot = Slot::Outstanding;
    }

    /// Unlink the outstanding request `id` and push it onto the ready list;
    /// its sender has been consumed, by delivery or by failed delivery. Used
    /// by the waiter on normal completion, and by the completion pump when
    /// the waiter was dropped before its completion arrived.
    pub fn return_outstanding_to_ready(&mut self, id: usize)
        requires
            old(self).wf(),
            id < old(self).entries@.len(),
            old(self).entries@[id as int].slot == Slot::Outstanding,
        ensures
            final(self).wf(),
            final(self).ready@ == old(self).ready@.push(id),
            final(self).entries@ == old(self).entries@.update(
                id as int,
                (Request {
                    has_sender: false,
                    slot: Slot::Ready,
                    ..old(self).entries@[id as int]
                }),
            ),
    {
        self.entries[id].slot = Slot::Ready;
        self.entries[id].has_sender = false;
        self.ready.push(id);
        let cap = self.entries.len();
        proof {
            assert(self.entries@ =~= old(self).entries@.update(
                id as int,
                (Request { has_sender: false, slot: Slot::Ready, ..old(self).entries@[id as int] }),
            ));
            lemma_requeue_preserves_wf(*old(self), *self, id);
        }
    }

    /// Push the detached request `id` back onto the ready list without it
    /// ever reaching the kernel: the submit syscall rejected it. Its sender
    /// is dropped with the failed operation.
    pub fn return_detached_to_ready(&mut self, id: usize)
        requires
            old(self).wf(),
            id < old(self).entries@.len(),
            old(self).entries@[id as int].slot == Slot::Detached,
        ensures
            final(self).wf(),
            final(self).ready@ == old(self).ready@.push(id),
            final(self).entries@ == old(self).entries@.update(
                id as int,
                (Request {
                    has_sender: false,
                    slot: Slot::Ready,
                    ..old(self).entries@[id as int]
                }),
            ),
    {
        self.entries[id].slot = Slot::Ready;
        self.entries[id].has_sender = false;
        self.ready.push(id);
        let cap = self.entries.len();
        proof {
            assert(self.entries@ =~= old(self).entries@.update(
                id as int,
                (Request { has_sender: false, slot: Slot::Ready, ..old(self).entries@[id as int] }),
            ));
            lemma_requeue_preserves_wf(*old(self), *self, id);
        }
    }

    /// True when every request is back on the ready list: the state teardown
    /// requires, since the kernel references the address of any outstanding
    /// request.
    pub fn all_ready(&self) -> (r: bool)
        requires
            self.wf(),
        ensures
            r <==> (self.n_detached() == 0 && self.n_outstanding() == 0),
    {
        let n_ready = self.ready.len();
        let n_entries = self.entries.len();
        proof {
            lemma_count_partition(self.entries@);
            lemma_count_nonneg(self.entries@, Slot::Detached);
            lemma_count_nonneg(self.entries@, Slot::Outstanding);
            if n_ready == n_entries {
                if self.n_detached() > 0 {
                    let i = lemma_count_witness(self.entries@, Slot::Detached);
                    lemma_ready_excludes(*self, i);
                }
                if self.n_outstanding() > 0 {
                    let i = lemma_count_witness(self.entries@, Slot::Outstanding);
                    lemma_ready_excludes(*self, i);
                }
            } else {
                if self.n_detached() == 0 && self.n_outstanding() == 0 {
                    lemma_ready_full(*self);
                }
            }
        }
        n_ready == n_entries
    }
}

/// In a well-formed pool where every request is marked ready, the ready list
/// has one entry per request.
proof fn lemma_ready_full(rs: Requests)
    requires
        rs.wf(),
        rs.entries@.len() <= usize::MAX,
        rs.n_detached() == 0,
        rs.n_outstanding() == 0,
    ensures
        rs.ready@.len() == rs.entries@.len(),
{
    lemma_count_partition(rs.entries@);
    lemma_ready_len_le(rs.ready@, rs.entries@.len() as int);
    assert(rs.ready@.len() <= rs.entries@.len());
    if rs.ready@.len() < rs.entries@.len() {
        let i = lemma_missing_index(rs.ready@, rs.entries@.len() as int);
        assert(rs.entries@[i].slot == Slot::Ready || rs.entries@[i].slot == Slot::Detached
            || rs.entries@[i].slot == Slot::Outstanding);
        if rs.entries@[i].slot == Slot::Detached {
            lemma_count_index_pos(rs.entries@, Slot::Detached, i);
        } else if rs.entries@[i].slot == Slot::Outstanding {
            lemma_count_index_pos(rs.entries@, Slot::Outstanding, i);
        } else {
            assert(rs.ready@.contains(i as usize));
        }
    }
}

/// Pool containment: every request is in exactly one of the three places —
/// ready, outstanding, or detached while being populated — and the three
/// counts always sum to the pool's fixed capacity.
pub proof fn lemma_pool_containment(rs: Requests)
    ensures
        rs.n_ready() + rs.n_detached() + rs.n_outstanding() == rs.capacity(),
{
    lemma_count_partition(rs.entries@);
}

/// Popping the head of the ready list and detaching that request keeps the
/// pool well formed.
pub proof fn lemma_take_preserves_wf(pre: Requests, post: Requests, id: usize)
    requires
        pre.wf(),
        pre.entries@.len() <= usize::MAX,
        pre.ready@.len() > 0,
        id == pre.ready@.last(),
        post.ready@ == pre.ready@.drop_last(),
        post.entries@ == pre.entries@.update(
            id as int,
            (Request { slot: Slot::Detached, ..pre.entries@[id as int] }),
        ),
    ensures
        post.wf(),
{
    assert forall|i: int|
        0 <= i < post.entries@.len() && (#[trigger] post.entries@[i]).slot
            == Slot::Ready implies post.ready@.contains(i as usize) by {
        assert(i != id as int);
        assert((i as usize) as int == i);
        assert(pre.entries@[i].slot == Slot::Ready);
        assert(pre.ready@.contains(i as usize));
        let k = choose|k: int| 0 <= k < pre.ready@.len() && pre.ready@[k] == i as usize;
        assert(pre.ready@[pre.ready@.len() - 1] == id);
        assert(k < pre.ready@.len() - 1);
        assert(post.ready@[k] == i as usize);
    }
}

/// Marking a non-ready request ready again, clearing its sender, and
/// pushing it onto the ready list keeps the pool well formed.
pub proof fn lemma_requeue_preserves_wf(pre: Requests, post: Requests, id: usize)
    requires
        pre.wf(),
        pre.entries@.len() <= usize::MAX,
        id < pre.entries@.len(),
        pre.entries@[id as int].slot != Slot::Ready,
        post.ready@ == pre.ready@.push(id),
        post.entries@ == pre.entries@.update(
            id as int,
            (Request { has_sender: false, slot: Slot::Ready, ..pre.entries@[id as int] }),
        ),
    ensures
        post.wf(),
{
    assert forall|k1: int, k2: int|
        0 <= k1 < k2 < post.ready@.len() implies post.ready@[k1] != post.ready@[k2] by {
        if k2 == post.ready@.len() - 1 {
            assert(post.ready@[k1] == pre.ready@[k1]);
            assert(pre.entries@[pre.ready@[k1] as int].slot == Slot::Ready);
        }
    }
    assert forall|i: int|
        0 <= i < post.entries@.len() && (#[trigger] post.entries@[i]).slot
            == Slot::Ready implies post.ready@.contains(i as usize) by {
        if i == id as int {
            assert(post.ready@[post.ready@.len() - 1] == id);
        } else {
            assert(pre.ready@.contains(i as usize));
            let k = choose|k: int| 0 <= k < pre.ready@.len() && pre.ready@[k] == i as usize;
            assert(post.ready@[k] == i as usize);
        }
    }
}

/// Replacing a detached request's payload — keeping its address and leaving
/// it detached — keeps the pool well formed.
pub proof fn lemma_repopulate_preserves_wf(pre: Requests, post: Requests, id: usize, r: Request)
    requires
        pre.wf(),
        id < pre.entries@.len(),
        pre.entries@[id as int].slot == Slot::Detached,
        r.slot == Slot::Detached,
        r.addr == pre.entries@[id as int].addr,
        post.ready@ == pre.ready@,
        post.entries@ == pre.entries@.update(id as int, r),
    ensures
        post.wf(),
{
}

/// Moving a seeded, detached request to the outstanding list keeps the pool
/// well formed.
pub proof fn lemma_track_preserves_wf(pre: Requests, post: Requests, id: usize)
    requires
        pre.wf(),
        id < pre.entries@.len(),
        pre.entries@[id as int].slot == Slot::Detached,
        pre.entries@[id as int].has_sender,
        pre.entries@[id as int].iocb.user_data == pre.entries@[id as int].addr,
        post.ready@ == pre.ready@,
        post.entries@ == pre.entries@.update(
            id as int,
            (Request { slot: Slot::Outstanding, ..pre.entries@[id as int] }),
        ),
    ensures
        post.wf(),
{
}

/// In a well-formed pool, a request that is not marked ready is off the
/// ready list, so the ready list cannot cover the whole pool.
proof fn lemma_ready_excludes(rs: Requests, i: int)
    requires
        rs.wf(),
        rs.entries@.len() <= usize::MAX,
        0 <= i < rs.entries@.len(),
        rs.entries@[i].slot != Slot::Ready,
    ensures
        rs.ready@.len() < rs.entries@.len(),
{
    let n = rs.entries@.len() as int;
    assert forall|k: int| 0 <= k < rs.ready@.len() implies rs.ready@[k] != i by {
        assert(rs.entries@[rs.ready@[k] as int].slot == Slot::Ready);
    }
    lemma_distinct_excluding(rs.ready@, n, i);
}

/// A sequence of distinct indices below `n` that all avoid `i` has at most
/// `n - 1` entries.
proof fn lemma_distinct_excluding(r: Seq<usize>, n: int, i: int)
    requires
        0 <= i < n,
        n <= usize::MAX as int + 1,
        forall|k: int| 0 <= k < r.len() ==> (#[trigger] r[k]) < n,
        forall|k1: int, k2: int| 0 <= k1 < k2 < r.len() ==> r[k1] != r[k2],
        forall|k: int| 0 <= k < r.len() ==> (#[trigger] r[k]) != i,
    ensures
        r.len() <= n - 1,
{
    if i == n - 1 {
        assert forall|k: int| 0 <= k < r.len() implies (#[trigger] r[k]) < n - 1 by {
            assert(r[k] != i);
        }
        lemma_ready_len_le(r, n - 1);
    } else {
        let renamed = r.map_values(
            |x: usize|
                if x as int == n - 1 {
                    (i as usize)
                } else {
                    x
                },
        );
        assert forall|k: int| 0 <= k < renamed.len() implies (#[trigger] renamed[k]) < n - 1 by {
            assert(r[k] < n && r[k] != i);
        }
        assert forall|k1: int, k2: int|
            0 <= k1 < k2 < renamed.len() implies renamed[k1] != renamed[k2] by {
            assert(r[k1] != r[k2] && r[k1] != i && r[k2] != i);
        }
        lemma_ready_len_le(renamed, n - 1);
    }
}

/// A sequence of distinct indices below `n` has at most `n` entries.
proof fn lemma_ready_len_le(r: Seq<usize>, n: int)
    requires
        n >= 0,
        forall|k: int| 0 <= k < r.len() ==> (#[trigger] r[k]) < n,
        forall|k1: int, k2: int| 0 <= k1 < k2 < r.len() ==> r[k1] != r[k2],
    ensures
        r.len() <= n,
    decreases n,
{
    if r.len() > 0 {
        let last = r[r.len() - 1];
        let rest = r.drop_last();
        let renamed = rest.map_values(
            |x: usize|
                if x as int == n - 1 {
                    last
                } else {
                    x
                },
        );
        assert(forall|k: int| 0 <= k < renamed.len() ==> (#[trigger] renamed[k]) < n - 1) by {
            assert forall|k: int| 0 <= k < renamed.len() implies (#[trigger] renamed[k]) < n
                - 1 by {
                assert(rest[k] == r[k]);
                assert(r[k] != last);
            }
        }
        assert forall|k1: int, k2: int|
            0 <= k1 < k2 < renamed.len() implies renamed[k1] != renamed[k2] by {
            assert(rest[k1] == r[k1] && rest[k2] == r[k2]);
        }
        lemma_ready_len_le(renamed, n - 1);
    }
}

/// A sequence of distinct indices shorter than `n` misses some index below
/// `n`.
proof fn lemma_missing_index(r: Seq<usize>, n: int) -> (i: int)
    requires
        n <= usize::MAX as int + 1,
        0 <= r.len() < n,
        forall|k: int| 0 <= k < r.len() ==> (#[trigger] r[k]) < n,
        forall|k1: int, k2: int| 0 <= k1 < k2 < r.len() ==> r[k1] != r[k2],
    ensures
        0 <= i < n,
        forall|k: int| 0 <= k < r.len() ==> r[k] != i,
{
    if forall|i: int| 0 <= i < n ==> r.contains(#[trigger] (i as usize)) {
        assert(false) by {
            lemma_all_contained_len(r, n);
        }
        0
    } else {
        let i = choose|i: int| 0 <= i < n && !r.contains(#[trigger] (i as usize));
        assert(forall|k: int| 0 <= k < r.len() ==> r[k] != i);
        i
    }
}

/// A sequence of distinct indices that contains every index below `n` has at
/// least `n` entries.
proof fn lemma_all_contained_len(r: Seq<usize>, n: int)
    requires
        n >= 0,
        n <= usize::MAX as int + 1,
        forall|k1: int, k2: int| 0 <= k1 < k2 < r.len() ==> r[k1] != r[k2],
        forall|i: int| 0 <= i < n ==> r.contains(#[trigger] (i as usize)),
    ensures
        r.len() >= n,
    decreases n,
{
    if n > 0 {
        assert(r.contains((n - 1) as usize));
        assert(((n - 1) as usize) as int == n - 1);
        let k = choose|k: int| 0 <= k < r.len() && r[k] == (n - 1) as usize;
        let rest = r.remove(k);
        assert forall|k1: int, k2: int|
            0 <= k1 < k2 < rest.len() implies rest[k1] != rest[k2] by {
            if k2 < k {
                assert(rest[k1] == r[k1] && rest[k2] == r[k2]);
            } else if k1 >= k {
                assert(rest[k1] == r[k1 + 1] && rest[k2] == r[k2 + 1]);
            } else {
                assert(rest[k1] == r[k1] && rest[k2] == r[k2 + 1]);
            }
        }
        assert forall|i: int| 0 <= i < n - 1 implies rest.contains(#[trigger] (i as usize)) by {
            assert(r.contains(i as usize));
            let ki = choose|ki: int| 0 <= ki < r.len() && r[ki] == i as usize;
            assert((i as usize) as int == i);
            assert(ki != k);
            if ki < k {
                assert(rest[ki] == i as usize);
            } else {
                assert(rest[ki - 1] == i as usize);
            }
        }
        lemma_all_contained_len(rest, n - 1);
    }
}

/// A count is never negative.
pub proof fn lemma_count_nonneg(s: Seq<Request>, t: Slot)
    ensures
        count_slot(s, t) >= 0,
    decreases s.len(),
{
    if s.len() > 0 {
        lemma_count_nonneg(s.drop_last(), t);
    }
}

/// An index holding the counted place makes the count positive.
pub proof fn lemma_count_index_pos(s: Seq<Request>, t: Slot, i: int)
    requires
        0 <= i < s.len(),
        s[i].slot == t,
    ensures
        count_slot(s, t) > 0,
    decreases s.len(),
{
    if i < s.len() - 1 {
        assert(s.drop_last()[i] == s[i]);
        lemma_count_index_pos(s.drop_last(), t, i);
    } else {
        assert(s.last() == s[i]);
        lemma_count_nonneg(s.drop_last(), t);
    }
}

} // verus!
