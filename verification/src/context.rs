//! The AIO context: one kernel queue of fixed depth, multiplexed over any
//! number of concurrent user operations.
//!
//! This module is the decision core of the adapter. A host owns the kernel
//! handle, the event descriptor, the semaphore, the one-shot channels and the
//! completion-pump task; whenever one of those yields (a permit was granted,
//! the submit syscall returned, a completion event arrived, a send to a
//! waiter failed), the host applies the matching transition here. Every
//! transition keeps the context well formed: permits held by live operations
//! plus available permits always account exactly for the configured
//! capacity, which is what makes the pool safe to reuse and the context safe
//! to tear down once it drains.

use vstd::prelude::*;

use crate::Command;
use crate::requests::{Request, Requests, Slot, count_slot, lemma_count_index_pos,
    lemma_count_nonneg, lemma_count_partition, lemma_count_update, lemma_count_witness};

verus! {

/// The bookkeeping state of one AIO context: the event descriptor the kernel
/// signals, the configured queue depth, the admission permits that are
/// currently available, the number of operations that hold a permit but have
/// not yet checked out a request, and the request pool.
pub struct AioContextInner {
    /// The event descriptor registered with every submission.
    pub eventfd: i32,
    /// The kernel queue depth; also the pool size and the permit total.
    pub capacity: usize,
    /// Admission permits not held by any operation.
    pub permits: usize,
    /// Operations that hold a permit and have not yet taken a ready request.
    pub admitted: usize,
    /// The request pool.
    pub requests: Requests,
}

impl AioContextInner {
    /// Well-formedness: the pool is well formed and sized to the capacity,
    /// and every permit is accounted for — it is either available, or held
    /// by an operation that has not yet taken a request, or held through a
    /// detached request being populated, or held through a request the
    /// kernel still owns.
    pub open spec fn wf(self) -> bool {
        &&& self.requests.wf()
        &&& self.requests.capacity() == self.capacity
        &&& self.permits + self.admitted + self.requests.n_detached()
            + self.requests.n_outstanding() == self.capacity
        &&& self.eventfd >= 0
    }

    /// One operation was admitted: the semaphore granted it a permit.
    pub open spec fn acquire_rel(pre: Self, post: Self) -> bool {
        &&& pre.permits > 0
        &&& post.permits == pre.permits - 1
        &&& post.admitted == pre.admitted + 1
        &&& post.requests == pre.requests
        &&& post.capacity == pre.capacity
        &&& post.eventfd == pre.eventfd
    }

    /// An admitted operation checked out the head of the ready list; the
    /// request `id` is now detached for it.
    pub open spec fn take_rel(pre: Self, post: Self, id: usize) -> bool {
        &&& pre.admitted > 0
        &&& pre.requests.ready@.len() > 0
        &&& id == pre.requests.ready@.last()
        &&& id < pre.requests.entries@.len()
        &&& pre.requests.entries@[id as int].slot == Slot::Ready
        &&& post.requests.ready@ == pre.requests.ready@.drop_last()
        &&& post.requests.entries@ == pre.requests.entries@.update(
            id as int,
            (Request { slot: Slot::Detached, ..pre.requests.entries@[id as int] }),
        )
        &&& post.permits == pre.permits
        &&& post.admitted == pre.admitted - 1
        &&& post.capacity == pre.capacity
        &&& post.eventfd == pre.eventfd
    }

    /// The detached request `id` was populated for `command` on file `fd`:
    /// its control block carries the command, the event descriptor, and its
    /// own address as user-data, and its result sender is in place.
    pub open spec fn seed_rel(pre: Self, post: Self, id: usize, fd: i32, command: Command) -> bool {
        &&& id < pre.requests.entries@.len()
        &&& pre.requests.entries@[id as int].slot == Slot::Detached
        &&& post.requests.ready@ == pre.requests.ready@
        &&& post.requests.entries@ == pre.requests.entries@.update(
            id as int,
            (Request {
                addr: pre.requests.entries@[id as int].addr,
                iocb: crate::abi::Submission {
                    user_data: pre.requests.entries@[id as int].addr,
                    opcode: command.opcode,
                    fd: fd,
                    buf: command.buf,
                    len: command.len,
                    offset: command.offset,
                    flags: crate::abi::IOCB_FLAG_RESFD | command.flags,
                    resfd: pre.eventfd as u32,
                },
                has_sender: true,
                slot: Slot::Detached,
            }),
        )
        &&& post.permits == pre.permits
        &&& post.admitted == pre.admitted
        &&& post.capacity == pre.capacity
        &&& post.eventfd == pre.eventfd
    }

    /// The kernel accepted the submission of the seeded request `id`, which
    /// moved onto the outstanding list.
    pub open spec fn submit_ok_rel(pre: Self, post: Self, id: usize) -> bool {
        &&& id < pre.requests.entries@.len()
        &&& pre.requests.entries@[id as int].slot == Slot::Detached
        &&& pre.requests.entries@[id as int].has_sender
        &&& pre.requests.entries@[id as int].iocb.user_data == pre.requests.entries@[id
            as int].addr
        &&& post.requests.ready@ == pre.requests.ready@
        &&& post.requests.entries@ == pre.requests.entries@.update(
            id as int,
            (Request { slot: Slot::Outstanding, ..pre.requests.entries@[id as int] }),
        )
        &&& post.permits == pre.permits
        &&& post.admitted == pre.admitted
        &&& post.capacity == pre.capacity
        &&& post.eventfd == pre.eventfd
    }

    /// The submit syscall rejected the request `id`: it returns to the ready
    /// list and the operation's permit is released, before the error
    /// propagates.
    pub open spec fn submit_failed_rel(pre: Self, post: Self, id: usize) -> bool {
        &&& id < pre.requests.entries@.len()
        &&& pre.requests.entries@[id as int].slot == Slot::Detached
        &&& post.requests.ready@ == pre.requests.ready@.push(id)
        &&& post.requests.entries@ == pre.requests.entries@.update(
            id as int,
            (Request {
                has_sender: false,
                slot: Slot::Ready,
                ..pre.requests.entries@[id as int]
            }),
        )
        &&& post.permits == pre.permits + 1
        &&& post.admitted == pre.admitted
        &&& post.capacity == pre.capacity
        &&& post.eventfd == pre.eventfd
    }

    /// The completion of the outstanding request `id` was observed and its
    /// sender consumed — either the waiter received the result and finished
    /// the lifecycle itself, or the waiter was gone and the pump recycled
    /// the request. Both paths return the request to the ready list and
    /// release one permit.
    pub open spec fn complete_rel(pre: Self, post: Self, id: usize) -> bool {
        &&& id < pre.requests.entries@.len()
        &&& pre.requests.entries@[id as int].slot == Slot::Outstanding
        &&& post.requests.ready@ == pre.requests.ready@.push(id)
        &&& post.requests.entries@ == pre.requests.entries@.update(
            id as int,
            (Request {
                has_sender: false,
                slot: Slot::Ready,
                ..pre.requests.entries@[id as int]
            }),
        )
        &&& post.permits == pre.permits + 1
        &&& post.admitted == pre.admitted
        &&& post.capacity == pre.capacity
        &&& post.eventfd == pre.eventfd
    }

    /// Build the context state for a pool with one request per control-block
    /// address: every request ready, every permit available, no operation in
    /// flight.
    pub fn new(eventfd: i32, addrs: &Vec<u64>) -> (r: Self)
        requires
            eventfd >= 0,
            forall|i: int, j: int| 0 <= i < j < addrs@.len() ==> addrs@[i] != addrs@[j],
        ensures
            r.wf(),
            r.eventfd == eventfd,
            r.capacity == addrs@.len(),
            r.permits == r.capacity,
            r.admitted == 0,
            r.requests.n_outstanding() == 0,
            r.requests.n_detached() == 0,
    {
        let requests = Requests::new(addrs);
        let capacity = requests.entries.len();
        AioContextInner { eventfd, capacity, permits: capacity, admitted: 0, requests }
    }

    /// The number of admission permits not currently held by any operation.
    pub fn available_slots(&self) -> (r: usize)
        ensures
            r == self.permits,
    {
        self.permits
    }

    /// Record that the semaphore granted one permit to an operation. The
    /// host awaits the semaphore first; a permit is only granted while one
    /// is available.
    pub fn acquire(&mut self)
        requires
            old(self).wf(),
            old(self).permits > 0,
        ensures
            final(self).wf(),
            Self::acquire_rel(*old(self), *final(self)),
    {
        proof {
            lemma_count_nonneg(self.requests.entries@, Slot::Detached);
            lemma_count_nonneg(self.requests.entries@, Slot::Outstanding);
        }
        self.permits = self.permits - 1;
        self.admitted = self.admitted + 1;
    }

    /// Check out the head of the ready list for an admitted operation. The
    /// permit accounting guarantees a ready request exists.
    pub fn take(&mut self) -> (id: usize)
        requires
            old(self).wf(),
            old(self).admitted > 0,
        ensures
            final(self).wf(),
            Self::take_rel(*old(self), *final(self), id),
    {
        proof {
            lemma_count_partition(self.requests.entries@);
            let i = lemma_count_witness(self.requests.entries@, Slot::Ready);
            assert(self.requests.ready@.contains(i as usize));
        }
        let id = self.requests.take();
        self.admitted = self.admitted - 1;
        proof {
            lemma_take_counts(*old(self), *self, id);
        }
        id
    }

    /// Populate the detached request `id` for `command` on file `fd`.
    pub fn seed(&mut self, id: usize, fd: i32, command: Command)
        requires
            old(self).wf(),
            id < old(self).requests.entries@.len(),
            old(self).requests.entries@[id as int].slot == Slot::Detached,
        ensures
            final(self).wf(),
            Self::seed_rel(*old(self), *final(self), id, fd, command),
    {
        let eventfd = self.eventfd;
        self.requests.seed(id, eventfd, fd, command);
        proof {
            lemma_count_update(
                old(self).requests.entries@,
                id as int,
                self.requests.entries@[id as int],
                Slot::Ready,
            );
            lemma_count_update(
                old(self).requests.entries@,
                id as int,
                self.requests.entries@[id as int],
                Slot::Detached,
            );
            lemma_count_update(
                old(self).requests.entries@,
                id as int,
                self.requests.entries@[id as int],
                Slot::Outstanding,
            );
        }
    }

    /// The kernel accepted the submission: track the request as
    /// outstanding.
    pub fn submit_ok(&mut self, id: usize)
        requires
            old(self).wf(),
            id < old(self).requests.entries@.len(),
            old(self).requests.entries@[id as int].slot == Slot::Detached,
            old(self).requests.entries@[id as int].has_sender,
            old(self).requests.entries@[id as int].iocb.user_data == old(
                self,
            ).requests.entries@[id as int].addr,
        ensures
            final(self).wf(),
            Self::submit_ok_rel(*old(self), *final(self), id),
    {
        self.requests.return_in_flight(id);
        proof {
            lemma_count_update(
                old(self).requests.entries@,
                id as int,
                self.requests.entries@[id as int],
                Slot::Detached,
            );
            lemma_count_update(
                old(self).requests.entries@,
                id as int,
                self.requests.entries@[id as int],
                Slot::Outstanding,
            );
        }
    }

    /// The kernel rejected the submission: return the request to the ready
    /// list and release the operation's permit, before the error
    /// propagates.
    pub fn submit_failed(&mut self, id: usize)
        requires
            old(self).wf(),
            id < old(self).requests.entries@.len(),
            old(self).requests.entries@[id as int].slot == Slot::Detached,
        ensures
            final(self).wf(),
            Self::submit_failed_rel(*old(self), *final(self), id),
    {
        proof {
            lemma_detached_permit_headroom(*self, id);
        }
        self.requests.return_detached_to_ready(id);
        self.permits = self.permits + 1;
        proof {
            lemma_count_update(
                old(self).requests.entries@,
                id as int,
                self.requests.entries@[id as int],
                Slot::Detached,
            );
            lemma_count_update(
                old(self).requests.entries@,
                id as int,
                self.requests.entries@[id as int],
                Slot::Outstanding,
            );
        }
    }

    /// The waiter received the result of request `id`: it returns the
    /// request to the ready list and releases its permit.
    pub fn complete_delivered(&mut self, id: usize)
        requires
            old(self).wf(),
            id < old(self).requests.entries@.len(),
            old(self).requests.entries@[id as int].slot == Slot::Outstanding,
        ensures
            final(self).wf(),
            Self::complete_rel(*old(self), *final(self), id),
    {
        proof {
            lemma_outstanding_permit_headroom(*self, id);
        }
        self.requests.return_outstanding_to_ready(id);
        self.permits = self.permits + 1;
        proof {
            lemma_count_update(
                old(self).requests.entries@,
                id as int,
                self.requests.entries@[id as int],
                Slot::Detached,
            );
            lemma_count_update(
                old(self).requests.entries@,
                id as int,
                self.requests.entries@[id as int],
                Slot::Outstanding,
            );
        }
    }

    /// Delivery for request `id` failed — its waiter was dropped before the
    /// completion arrived — so the pump itself recycles the request and
    /// releases the orphaned permit.
    pub fn complete_recycled(&mut self, id: usize)
        requires
            old(self).wf(),
            id < old(self).requests.entries@.len(),
            old(self).requests.entries@[id as int].slot == Slot::Outstanding,
        ensures
            final(self).wf(),
            Self::complete_rel(*old(self), *final(self), id),
    {
        self.complete_delivered(id);
    }

    /// Route a completion event: find the outstanding request whose
    /// control-block address equals the event's user-data word.
    pub fn find_outstanding(&self, user_data: u64) -> (r: Option<usize>)
        requires
            self.wf(),
        ensures
            match r {
                Some(id) => {
                    &&& id < self.requests.entries@.len()
                    &&& self.requests.entries@[id as int].slot == Slot::Outstanding
                    &&& self.requests.entries@[id as int].addr == user_data
                },
                None => forall|i: int|
                    0 <= i < self.requests.entries@.len()
                        ==> !((#[trigger] self.requests.entries@[i]).slot == Slot::Outstanding
                        && self.requests.entries@[i].addr == user_data),
            },
    {
        let n = self.requests.entries.len();
        let mut i: usize = 0;
        while i < n
            invariant
                i <= n,
                n == self.requests.entries@.len(),
                forall|j: int|
                    0 <= j < i ==> !((#[trigger] self.requests.entries@[j]).slot
                        == Slot::Outstanding && self.requests.entries@[j].addr == user_data),
            decreases n - i,
        {
            let e = &self.requests.entries[i];
            if e.addr == user_data && matches!(e.slot, Slot::Outstanding) {
                return Some(i);
            }
            i = i + 1;
        }
        None
    }
}

/// Admission balance: a quiescent context — no operation holding a permit,
/// no request detached or outstanding — has every one of its configured
/// permits available. Together with the lifecycle laws below this says that
/// once all operations have completed, failed or been cancelled and their
/// completions drained, `available_slots` is back at the capacity.
pub proof fn lemma_admission_balance(s: AioContextInner)
    requires
        s.wf(),
        s.admitted == 0,
        s.requests.n_detached() == 0,
        s.requests.n_outstanding() == 0,
    ensures
        s.permits == s.capacity,
{
}

/// Result routing: the user-data word of any completion the kernel can
/// deliver — that of a request on the outstanding list, whether or not its
/// waiter is still there — is the control-block address of that request and
/// of no other, so the pump routes it to exactly the owning request.
pub proof fn lemma_result_routing(s: AioContextInner, id: usize)
    requires
        s.wf(),
        id < s.requests.entries@.len(),
        s.requests.entries@[id as int].slot == Slot::Outstanding,
    ensures
        s.requests.entries@[id as int].iocb.user_data == s.requests.entries@[id as int].addr,
        forall|j: int|
            0 <= j < s.requests.entries@.len() && j != id ==> (#[trigger] s.requests.entries@[j]).addr
                != s.requests.entries@[id as int].addr,
{
    assert forall|j: int|
        0 <= j < s.requests.entries@.len() && j != id implies (#[trigger] s.requests.entries@[j]).addr
            != s.requests.entries@[id as int].addr by {
        if j < id as int {
            assert(s.requests.entries@[j].addr != s.requests.entries@[id as int].addr);
        }
    }
}

/// Acquiring a permit preserves well-formedness.
pub proof fn lemma_acquire_wf(pre: AioContextInner, post: AioContextInner)
    requires
        pre.wf(),
        AioContextInner::acquire_rel(pre, post),
    ensures
        post.wf(),
{
}

/// Taking the ready head preserves well-formedness and moves one request
/// from the ready count to the detached count.
pub proof fn lemma_take_wf(pre: AioContextInner, post: AioContextInner, id: usize)
    requires
        pre.wf(),
        AioContextInner::take_rel(pre, post, id),
    ensures
        post.wf(),
        post.requests.n_ready() == pre.requests.n_ready() - 1,
        post.requests.n_detached() == pre.requests.n_detached() + 1,
        post.requests.n_outstanding() == pre.requests.n_outstanding(),
{
    crate::requests::lemma_take_preserves_wf(pre.requests, post.requests, id);
    lemma_take_counts(pre, post, id);
}

/// Seeding a detached request preserves well-formedness and every count.
pub proof fn lemma_seed_wf(
    pre: AioContextInner,
    post: AioContextInner,
    id: usize,
    fd: i32,
    command: Command,
)
    requires
        pre.wf(),
        AioContextInner::seed_rel(pre, post, id, fd, command),
    ensures
        post.wf(),
        post.requests.n_ready() == pre.requests.n_ready(),
        post.requests.n_detached() == pre.requests.n_detached(),
        post.requests.n_outstanding() == pre.requests.n_outstanding(),
{
    crate::requests::lemma_repopulate_preserves_wf(
        pre.requests,
        post.requests,
        id,
        post.requests.entries@[id as int],
    );
    lemma_count_update(
        pre.requests.entries@,
        id as int,
        post.requests.entries@[id as int],
        Slot::Ready,
    );
    lemma_count_update(
        pre.requests.entries@,
        id as int,
        post.requests.entries@[id as int],
        Slot::Detached,
    );
    lemma_count_update(
        pre.requests.entries@,
        id as int,
        post.requests.entries@[id as int],
        Slot::Outstanding,
    );
}

/// Tracking an accepted submission preserves well-formedness and moves one
/// request from the detached count to the outstanding count.
pub proof fn lemma_submit_ok_wf(pre: AioContextInner, post: AioContextInner, id: usize)
    requires
        pre.wf(),
        AioContextInner::submit_ok_rel(pre, post, id),
    ensures
        post.wf(),
        post.requests.n_ready() == pre.requests.n_ready(),
        post.requests.n_detached() == pre.requests.n_detached() - 1,
        post.requests.n_outstanding() == pre.requests.n_outstanding() + 1,
{
    crate::requests::lemma_track_preserves_wf(pre.requests, post.requests, id);
    lemma_count_update(
        pre.requests.entries@,
        id as int,
        post.requests.entries@[id as int],
        Slot::Ready,
    );
    lemma_count_update(
        pre.requests.entries@,
        id as int,
        post.requests.entries@[id as int],
        Slot::Detached,
    );
    lemma_count_update(
        pre.requests.entries@,
        id as int,
        post.requests.entries@[id as int],
        Slot::Outstanding,
    );
}

/// A rejected submission preserves well-formedness, returns the request to
/// the ready count and releases the permit.
pub proof fn lemma_submit_failed_wf(pre: AioContextInner, post: AioContextInner, id: usize)
    requires
        pre.wf(),
        AioContextInner::submit_failed_rel(pre, post, id),
    ensures
        post.wf(),
        post.requests.n_ready() == pre.requests.n_ready() + 1,
        post.requests.n_detached() == pre.requests.n_detached() - 1,
        post.requests.n_outstanding() == pre.requests.n_outstanding(),
{
    crate::requests::lemma_requeue_preserves_wf(pre.requests, post.requests, id);
    lemma_count_update(
        pre.requests.entries@,
        id as int,
        post.requests.entries@[id as int],
        Slot::Ready,
    );
    lemma_count_update(
        pre.requests.entries@,
        id as int,
        post.requests.entries@[id as int],
        Slot::Detached,
    );
    lemma_count_update(
        pre.requests.entries@,
        id as int,
        post.requests.entries@[id as int],
        Slot::Outstanding,
    );
}

/// An observed completion preserves well-formedness, returns the request to
/// the ready count and releases the permit.
pub proof fn lemma_complete_wf(pre: AioContextInner, post: AioContextInner, id: usize)
    requires
        pre.wf(),
        AioContextInner::complete_rel(pre, post, id),
    ensures
        post.wf(),
        post.requests.n_ready() == pre.requests.n_ready() + 1,
        post.requests.n_detached() == pre.requests.n_detached() - 1 + 1,
        post.requests.n_outstanding() == pre.requests.n_outstanding() - 1,
{
    crate::requests::lemma_requeue_preserves_wf(pre.requests, post.requests, id);
    lemma_count_update(
        pre.requests.entries@,
        id as int,
        post.requests.entries@[id as int],
        Slot::Ready,
    );
    lemma_count_update(
        pre.requests.entries@,
        id as int,
        post.requests.entries@[id as int],
        Slot::Detached,
    );
    lemma_count_update(
        pre.requests.entries@,
        id as int,
        post.requests.entries@[id as int],
        Slot::Outstanding,
    );
}

/// Lifecycle of a submitted operation, whatever becomes of its waiter: the
/// operation is admitted, checks out a request, seeds it, the kernel accepts
/// the submission, and the completion is eventually observed — delivered to
/// the waiter, or, when the waiter was dropped before the completion arrived,
/// recycled by the pump. In every case the context is well formed again with
/// exactly the permits and pool counts it started from: cancellation leaks
/// nothing, and a context quiescent before the operation has all its permits
/// available after it.
pub proof fn lemma_operation_lifecycle(
    s0: AioContextInner,
    s1: AioContextInner,
    s2: AioContextInner,
    s3: AioContextInner,
    s4: AioContextInner,
    s5: AioContextInner,
    id: usize,
    fd: i32,
    command: Command,
)
    requires
        s0.wf(),
        AioContextInner::acquire_rel(s0, s1),
        AioContextInner::take_rel(s1, s2, id),
        AioContextInner::seed_rel(s2, s3, id, fd, command),
        AioContextInner::submit_ok_rel(s3, s4, id),
        AioContextInner::complete_rel(s4, s5, id),
    ensures
        s5.wf(),
        s5.capacity == s0.capacity,
        s5.permits == s0.permits,
        s5.admitted == s0.admitted,
        s5.requests.n_ready() == s0.requests.n_ready(),
        s5.requests.n_detached() == s0.requests.n_detached(),
        s5.requests.n_outstanding() == s0.requests.n_outstanding(),
        (s0.admitted == 0 && s0.requests.n_detached() == 0 && s0.requests.n_outstanding() == 0)
            ==> s5.permits == s5.capacity,
{
    lemma_acquire_wf(s0, s1);
    lemma_take_wf(s1, s2, id);
    lemma_seed_wf(s2, s3, id, fd, command);
    lemma_submit_ok_wf(s3, s4, id);
    lemma_complete_wf(s4, s5, id);
    if s0.admitted == 0 && s0.requests.n_detached() == 0 && s0.requests.n_outstanding() == 0 {
        lemma_admission_balance(s5);
    }
}

/// Lifecycle of an operation whose submission the kernel rejects: the
/// request returns to the ready list and the permit is released before the
/// error propagates, so the context ends exactly as it began.
pub proof fn lemma_failed_submission_lifecycle(
    s0: AioContextInner,
    s1: AioContextInner,
    s2: AioContextInner,
    s3: AioContextInner,
    s4: AioContextInner,
    id: usize,
    fd: i32,
    command: Command,
)
    requires
        s0.wf(),
        AioContextInner::acquire_rel(s0, s1),
        AioContextInner::take_rel(s1, s2, id),
        AioContextInner::seed_rel(s2, s3, id, fd, command),
        AioContextInner::submit_failed_rel(s3, s4, id),
    ensures
        s4.wf(),
        s4.capacity == s0.capacity,
        s4.permits == s0.permits,
        s4.admitted == s0.admitted,
        s4.requests.n_ready() == s0.requests.n_ready(),
        s4.requests.n_detached() == s0.requests.n_detached(),
        s4.requests.n_outstanding() == s0.requests.n_outstanding(),
{
    lemma_acquire_wf(s0, s1);
    lemma_take_wf(s1, s2, id);
    lemma_seed_wf(s2, s3, id, fd, command);
    lemma_submit_failed_wf(s3, s4, id);
}

/// A detached request keeps at least one permit unavailable, so releasing a
/// permit cannot overflow the capacity.
proof fn lemma_detached_permit_headroom(s: AioContextInner, id: usize)
    requires
        s.wf(),
        id < s.requests.entries@.len(),
        s.requests.entries@[id as int].slot == Slot::Detached,
    ensures
        s.permits < s.capacity,
{
    lemma_count_index_pos(s.requests.entries@, Slot::Detached, id as int);
    lemma_count_nonneg(s.requests.entries@, Slot::Ready);
    lemma_count_nonneg(s.requests.entries@, Slot::Outstanding);
}

/// An outstanding request keeps at least one permit unavailable, so
/// releasing a permit cannot overflow the capacity.
proof fn lemma_outstanding_permit_headroom(s: AioContextInner, id: usize)
    requires
        s.wf(),
        id < s.requests.entries@.len(),
        s.requests.entries@[id as int].slot == Slot::Outstanding,
    ensures
        s.permits < s.capacity,
{
    lemma_count_index_pos(s.requests.entries@, Slot::Outstanding, id as int);
    lemma_count_nonneg(s.requests.entries@, Slot::Ready);
    lemma_count_nonneg(s.requests.entries@, Slot::Detached);
}

/// The count bookkeeping of one `take`: the taken request leaves the ready
/// count for the detached count.
proof fn lemma_take_counts(pre: AioContextInner, post: AioContextInner, id: usize)
    requires
        pre.wf(),
        id < pre.requests.entries@.len(),
        pre.requests.entries@[id as int].slot == Slot::Ready,
        post.requests.entries@ == pre.requests.entries@.update(
            id as int,
            (Request { slot: Slot::Detached, ..pre.requests.entries@[id as int] }),
        ),
    ensures
        post.requests.n_ready() == pre.requests.n_ready() - 1,
        post.requests.n_detached() == pre.requests.n_detached() + 1,
        post.requests.n_outstanding() == pre.requests.n_outstanding(),
{
    lemma_count_update(
        pre.requests.entries@,
        id as int,
        post.requests.entries@[id as int],
        Slot::Ready,
    );
    lemma_count_update(
        pre.requests.entries@,
        id as int,
        post.requests.entries@[id as int],
        Slot::Detached,
    );
    lemma_count_update(
        pre.requests.entries@,
        id as int,
        post.requests.entries@[id as int],
        Slot::Outstanding,
    );
}

} // verus!
