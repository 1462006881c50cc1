//! Mathematical model of the job queue: a FIFO sequence of pending
//! instances, the number of running jobs and the fixed ceiling, with the
//! laws that hold of every history of operations.
//!
//! Each operation of the queue is atomic, so what concurrent callers do to a
//! shared queue is some sequence of operations; the laws below speak of all
//! such sequences.

use vstd::prelude::*;

verus! {

/// Abstract state of a queue whose items are modelled by `T`.
pub struct QueueState<T> {
    pub pending: Seq<T>,
    pub running: nat,
    pub max_concurrent: nat,
}

/// One operation on a queue.
pub enum QueueOp<T> {
    Enqueue(T),
    NextJob,
    JobDone,
}

impl<T> QueueState<T> {
    /// The state of a freshly created queue with the given ceiling.
    pub open spec fn empty(max_concurrent: nat) -> Self {
        QueueState { pending: Seq::empty(), running: 0, max_concurrent }
    }

    /// The running count never exceeds the ceiling.
    pub open spec fn wf(self) -> bool {
        self.running <= self.max_concurrent
    }

    /// The state after `item` has joined the tail of the pending sequence.
    pub open spec fn enqueue(self, item: T) -> Self {
        QueueState { pending: self.pending.push(item), ..self }
    }

    /// The state after every item of `items` has been enqueued in order.
    pub open spec fn enqueue_all(self, items: Seq<T>) -> Self {
        QueueState { pending: self.pending + items, ..self }
    }

    /// Whether a dequeue attempt admits a job: a slot is free and a job is
    /// pending.
    pub open spec fn admits(self) -> bool {
        self.running < self.max_concurrent && self.pending.len() > 0
    }

    /// The job that a dequeue attempt hands out, if it admits one.
    pub open spec fn admitted(self) -> Option<T> {
        if self.admits() {
            Some(self.pending[0])
        } else {
            None
        }
    }

    /// The state after a dequeue attempt: unchanged unless a job is admitted.
    pub open spec fn next_job(self) -> Self {
        if self.admits() {
            QueueState {
                pending: self.pending.drop_first(),
                running: self.running + 1,
                max_concurrent: self.max_concurrent,
            }
        } else {
            self
        }
    }

    /// The number of slots that are free.
    pub open spec fn free_slots(self) -> nat {
        if self.running < self.max_concurrent {
            (self.max_concurrent - self.running) as nat
        } else {
            0
        }
    }

    /// The number of jobs that repeated dequeue attempts admit before one
    /// returns nothing: as many as are pending, up to the free slots.
    pub open spec fn admissible(self) -> nat {
        if self.pending.len() <= self.free_slots() {
            self.pending.len()
        } else {
            self.free_slots()
        }
    }

    /// The state after dequeue attempts were made until one returned
    /// nothing.
    pub open spec fn admit_all(self) -> Self {
        QueueState {
            pending: self.pending.skip(self.admissible() as int),
            running: self.running + self.admissible(),
            max_concurrent: self.max_concurrent,
        }
    }

    /// The state after one completion was reported: one slot is released,
    /// and a count of zero stays zero.
    pub open spec fn job_done(self) -> Self {
        QueueState {
            running: if self.running > 0 {
                (self.running - 1) as nat
            } else {
                0
            },
            ..self
        }
    }

    /// The state after one operation.
    pub open spec fn apply(self, op: QueueOp<T>) -> Self {
        match op {
            QueueOp::Enqueue(item) => self.enqueue(item),
            QueueOp::NextJob => self.next_job(),
            QueueOp::JobDone => self.job_done(),
        }
    }

    /// The state after the operations of `ops`, first to last.
    pub open spec fn run(self, ops: Seq<QueueOp<T>>) -> Self
        decreases ops.len(),
    {
        if ops.len() == 0 {
            self
        } else {
            self.run(ops.drop_last()).apply(ops.last())
        }
    }

    /// How many dequeue attempts of `ops`, run from this state, admitted a
    /// job.
    pub open spec fn admissions(self, ops: Seq<QueueOp<T>>) -> nat
        decreases ops.len(),
    {
        if ops.len() == 0 {
            0
        } else {
            let before = self.run(ops.drop_last());
            let earlier = self.admissions(ops.drop_last());
            if ops.last() is NextJob && before.admits() {
                earlier + 1
            } else {
                earlier
            }
        }
    }

    /// Whether every completion in `ops`, run from this state, is reported
    /// for a job that was admitted earlier in `ops` and not yet reported.
    pub open spec fn disciplined(self, ops: Seq<QueueOp<T>>) -> bool
        decreases ops.len(),
    {
        if ops.len() == 0 {
            true
        } else {
            &&& self.disciplined(ops.drop_last())
            &&& ops.last() is JobDone ==> completions(ops.drop_last()) < self.admissions(
                ops.drop_last(),
            )
        }
    }
}

/// How many completions `ops` reports.
pub open spec fn completions<T>(ops: Seq<QueueOp<T>>) -> nat
    decreases ops.len(),
{
    if ops.len() == 0 {
        0
    } else if ops.last() is JobDone {
        completions(ops.drop_last()) + 1
    } else {
        completions(ops.drop_last())
    }
}

/// No operation lets the running count pass the ceiling, and none changes
/// the ceiling.
pub proof fn lemma_apply_keeps_ceiling<T>(state: QueueState<T>, op: QueueOp<T>)
    requires
        state.wf(),
    ensures
        state.apply(op).wf(),
        state.apply(op).max_concurrent == state.max_concurrent,
{
}

/// Whatever operations are applied to a queue, in whatever order, the
/// running count stays within the ceiling it was created with.
pub proof fn lemma_run_keeps_ceiling<T>(state: QueueState<T>, ops: Seq<QueueOp<T>>)
    requires
        state.wf(),
    ensures
        state.run(ops).wf(),
        state.run(ops).max_concurrent == state.max_concurrent,
    decreases ops.len(),
{
    if ops.len() > 0 {
        lemma_run_keeps_ceiling(state, ops.drop_last());
        lemma_apply_keeps_ceiling(state.run(ops.drop_last()), ops.last());
    }
}

/// On a queue created with ceiling `max_concurrent`, after any history in
/// which each completion is reported for a job admitted before it, the jobs
/// admitted and not yet reported done are exactly the running count, and so
/// never more than the ceiling.
pub proof fn lemma_outstanding_within_ceiling<T>(max_concurrent: nat, ops: Seq<QueueOp<T>>)
    requires
        QueueState::<T>::empty(max_concurrent).disciplined(ops),
    ensures
        completions(ops) <= QueueState::<T>::empty(max_concurrent).admissions(ops),
        QueueState::<T>::empty(max_concurrent).admissions(ops) - completions(ops)
            == QueueState::<T>::empty(max_concurrent).run(ops).running,
        QueueState::<T>::empty(max_concurrent).admissions(ops) - completions(ops)
            <= max_concurrent,
    decreases ops.len(),
{
    let start = QueueState::<T>::empty(max_concurrent);
    if ops.len() > 0 {
        lemma_outstanding_within_ceiling::<T>(max_concurrent, ops.drop_last());
        lemma_run_keeps_ceiling(start, ops.drop_last());
        lemma_apply_keeps_ceiling(start.run(ops.drop_last()), ops.last());
    }
}

/// Admitting whatever can be admitted keeps the running count within the
/// ceiling, and leaves nothing pending unless every slot is taken.
pub proof fn lemma_admit_all_within_ceiling<T>(state: QueueState<T>)
    requires
        state.wf(),
    ensures
        state.admit_all().wf(),
        state.admit_all().pending.len() == 0 || state.admit_all().running
            == state.max_concurrent,
        state.admit_all().admitted() is None,
{
}

/// A job enqueued on a queue with nothing pending and a free slot is the
/// job that the next dequeue attempt returns.
pub proof fn lemma_enqueue_then_next_job<T>(state: QueueState<T>, item: T)
    requires
        state.pending.len() == 0,
        state.running < state.max_concurrent,
    ensures
        state.enqueue(item).admitted() == Some(item),
        state.enqueue(item).next_job().pending.len() == 0,
{
}

/// The pending sequence is first in, first out: with nothing else pending
/// and two free slots, enqueuing `first` and then `second` makes the next
/// two dequeue attempts return `first` and then `second`.
pub proof fn lemma_fifo_pair<T>(state: QueueState<T>, first: T, second: T)
    requires
        state.pending.len() == 0,
        state.running + 2 <= state.max_concurrent,
    ensures
        state.enqueue(first).enqueue(second).admitted() == Some(first),
        state.enqueue(first).enqueue(second).next_job().admitted() == Some(second),
{
}

/// Jobs leave in the order in which they are pending: while a slot is
/// free, a dequeue attempt returns the head and leaves the rest in order,
/// and a job enqueued meanwhile waits behind all of them.
pub proof fn lemma_fifo_order<T>(state: QueueState<T>, item: T)
    requires
        state.pending.len() > 0,
        state.running < state.max_concurrent,
    ensures
        state.admitted() == Some(state.pending[0]),
        state.next_job().pending == state.pending.drop_first(),
        state.enqueue(item).admitted() == Some(state.pending[0]),
        state.enqueue(item).next_job().pending == state.pending.drop_first().push(item),
{
    assert(state.pending.push(item).drop_first() =~= state.pending.drop_first().push(item));
}

/// While every slot is taken a dequeue attempt returns nothing and changes
/// nothing, however many jobs are pending.
pub proof fn lemma_full_queue_blocks<T>(state: QueueState<T>)
    requires
        state.running == state.max_concurrent,
    ensures
        state.admitted() is None,
        state.next_job() == state,
{
}

/// Once one completion is reported on a queue whose slots were all taken,
/// a dequeue attempt returns the head of the pending sequence. This needs a
/// ceiling above zero: with no slot at all nothing is ever admitted.
pub proof fn lemma_done_unblocks<T>(state: QueueState<T>)
    requires
        state.running == state.max_concurrent,
        state.max_concurrent > 0,
        state.pending.len() > 0,
    ensures
        state.admitted() is None,
        state.job_done().admitted() == Some(state.pending[0]),
        state.job_done().next_job().running == state.max_concurrent,
{
}

} // verus!
