//! The concurrency-limited job queue: pending job instances in arrival
//! order, admitted while fewer than the ceiling are running.
//!
//! Every operation takes the queue by exclusive reference and so is atomic.
//! Tasks that share a queue keep it behind one lock; what they do to it is
//! then a sequence of these operations, of which `queue_model` states the
//! laws. A task that finds no work waits on the queue's notifier, outside
//! the lock; `enqueue` and `job_done` wake one such task. A woken task may
//! still find nothing to run and has to look again.

use std::collections::VecDeque;
use std::sync::Arc;
use tokio::sync::Notify;
use vstd::prelude::*;
use crate::job::Job;
use crate::job::JobView;
use crate::queue_model::QueueState;

verus! {

/// `tokio::sync::Notify`, on which tasks wait for work. Nothing is known of
/// what it holds.
#[verifier::external_type_specification]
#[verifier::external_body]
pub struct ExNotify(tokio::sync::Notify);

/// Calls `tokio::sync::Notify::new`: a notifier on which no task waits yet.
#[verifier::external_body]
fn new_notifier() -> Notify {
    Notify::new()
}

/// Calls `tokio::sync::Notify::notify_one`: one task that waits on the
/// notifier is woken, and where none waits the next one to wait returns at
/// once. What it does is done to other tasks, so nothing is stated of it.
#[verifier::external_body]
fn notify_one(notifier: &Arc<Notify>) {
    notifier.notify_one()
}

/// Calls `Arc::clone`: another handle to the same notifier.
#[verifier::external_body]
fn share(notifier: &Arc<Notify>) -> (handle: Arc<Notify>)
    ensures
        handle == *notifier,
{
    Arc::clone(notifier)
}

/// The slots of the admission control: how many jobs run, and how many may.
struct Slots {
    running: usize,
    max_concurrent: usize,
}

impl Slots {
    #[verifier::type_invariant]
    spec fn within_ceiling(self) -> bool {
        self.running <= self.max_concurrent
    }

    fn new(max_concurrent: usize) -> (slots: Slots)
        ensures
            slots.running == 0,
            slots.max_concurrent == max_concurrent,
    {
        Slots { running: 0, max_concurrent }
    }

    fn has_free(&self) -> (free: bool)
        ensures
            free == (self.running < self.max_concurrent),
            self.running <= self.max_concurrent,
    {
        proof {
            use_type_invariant(self);
        }
        self.running < self.max_concurrent
    }

    fn acquire(&mut self)
        requires
            old(self).running < old(self).max_concurrent,
        ensures
            final(self).running == old(self).running + 1,
            final(self).max_concurrent == old(self).max_concurrent,
    {
        self.running = self.running + 1;
    }

    fn release(&mut self)
        ensures
            final(self).running == if old(self).running > 0 {
                old(self).running - 1
            } else {
                0
            },
            final(self).max_concurrent == old(self).max_concurrent,
            final(self).running <= final(self).max_concurrent,
    {
        proof {
            use_type_invariant(&*self);
        }
        if self.running > 0 {
            self.running = self.running - 1;
        }
    }
}

/// Pending job instances and the count of admitted ones. The ceiling is
/// fixed when the queue is made.
pub struct JobQueue {
    queue: VecDeque<Job>,
    slots: Slots,
    /// Shared, so that tasks can wait on it outside the lock that guards
    /// the queue.
    notify: Arc<Notify>,
}

impl View for JobQueue {
    type V = QueueState<JobView>;

    closed spec fn view(&self) -> QueueState<JobView> {
        QueueState {
            pending: self.queue@.map_values(|job: Job| job@),
            running: self.slots.running as nat,
            max_concurrent: self.slots.max_concurrent as nat,
        }
    }
}

impl JobQueue {
    /// The notifier of the queue: the one on which `enqueue` and `job_done`
    /// wake a task. A queue keeps the notifier it was made with.
    pub closed spec fn shared_notifier(&self) -> Arc<Notify> {
        self.notify
    }

    /// An empty queue that admits at most `max_concurrent` jobs at a time.
    pub fn new(max_concurrent: usize) -> (queue: JobQueue)
        ensures
            queue@ == QueueState::<JobView>::empty(max_concurrent as nat),
    {
        let queue = JobQueue {
            queue: VecDeque::new(),
            slots: Slots::new(max_concurrent),
            notify: Arc::new(new_notifier()),
        };
        assert(queue@.pending =~= Seq::empty());
        queue
    }

    /// Appends `job` to the tail of the pending sequence and wakes one task
    /// that waits for work. The running count and the ceiling stay as they
    /// are.
    pub fn enqueue(&mut self, job: Job)
        ensures
            final(self)@ == old(self)@.enqueue(job@),
            final(self)@.wf(),
            final(self).shared_notifier() == old(self).shared_notifier(),
    {
        proof {
            use_type_invariant(&self.slots);
        }
        self.queue.push_back(job);
        assert(self@.pending =~= old(self)@.pending.push(job@));
        notify_one(&self.notify);
    }

    /// Admits the head of the pending sequence if a slot is free and a job
    /// is pending; otherwise returns `None` and leaves the queue as it is.
    pub fn next_job(&mut self) -> (job: Option<Job>)
        ensures
            final(self)@ == old(self)@.next_job(),
            job.deep_view() == old(self)@.admitted(),
            final(self)@.wf(),
            final(self).shared_notifier() == old(self).shared_notifier(),
    {
        if !self.slots.has_free() {
            return None;
        }
        match self.queue.pop_front() {
            Some(job) => {
                self.slots.acquire();
                assert(self@.pending =~= old(self)@.pending.drop_first());
                Some(job)
            },
            None => None,
        }
    }

    /// Releases one slot, where a count of zero stays zero, and wakes one
    /// task that waits for work.
    pub fn job_done(&mut self)
        ensures
            final(self)@ == old(self)@.job_done(),
            final(self)@.wf(),
            final(self).shared_notifier() == old(self).shared_notifier(),
    {
        self.slots.release();
        notify_one(&self.notify);
    }

    /// A handle to the notifier of the queue, for tasks to wait on: it
    /// points to the very notifier on which `enqueue` and `job_done` wake a
    /// task, not to a copy or to a fresh one.
    pub fn notifier(&self) -> (handle: Arc<Notify>)
        ensures
            handle == self.shared_notifier(),
    {
        share(&self.notify)
    }

    /// The number of jobs admitted and not yet reported done.
    pub fn running(&self) -> (count: usize)
        ensures
            count == self@.running,
            count <= self@.max_concurrent,
    {
        proof {
            use_type_invariant(&self.slots);
        }
        self.slots.running
    }

    /// The ceiling on jobs running at once.
    pub fn max_concurrent(&self) -> (ceiling: usize)
        ensures
            ceiling == self@.max_concurrent,
    {
        self.slots.max_concurrent
    }

    /// The number of pending job instances.
    pub fn pending(&self) -> (count: usize)
        ensures
            count == self@.pending.len(),
    {
        self.queue.len()
    }
}

} // verus!
