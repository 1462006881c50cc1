//! The decisions of the dispatch loop: which jobs enter the queue when jobs
//! are triggered by name, and what happens to the queue when a run ends.
//!
//! The loop itself waits, admits a job with `JobQueue::next_job`, hands it
//! to the execution backend and reports the end of the run with `finish`.
//! Whether the run succeeded plays no part: the cascade is the same.

use vstd::prelude::*;
use crate::job::Job;
use crate::job::JobView;
use crate::job_queue::JobQueue;
use crate::pipeline::Pipeline;

verus! {

/// The jobs that `names` resolve to in `pipeline`, in the order of `names`;
/// a name without a job is passed over.
pub open spec fn resolved(pipeline: Map<Seq<char>, JobView>, names: Seq<Seq<char>>) -> Seq<
    JobView,
>
    decreases names.len(),
{
    if names.len() == 0 {
        Seq::empty()
    } else {
        let earlier = resolved(pipeline, names.drop_last());
        if pipeline.contains_key(names.last()) {
            earlier.push(pipeline[names.last()])
        } else {
            earlier
        }
    }
}

/// For each of `names`, whether `pipeline` has a job under it.
pub open spec fn found_flags(pipeline: Map<Seq<char>, JobView>, names: Seq<Seq<char>>) -> Seq<
    bool,
> {
    names.map_values(|name: Seq<char>| pipeline.contains_key(name))
}

/// A single name that resolves enqueues exactly one instance: the job
/// under that name.
pub proof fn lemma_resolved_one(pipeline: Map<Seq<char>, JobView>, name: Seq<char>)
    ensures
        pipeline.contains_key(name) ==> resolved(pipeline, seq![name]) == seq![pipeline[name]],
        !pipeline.contains_key(name) ==> resolved(pipeline, seq![name]) == Seq::<JobView>::empty(),
{
    let names = seq![name];
    assert(names.drop_last() =~= Seq::<Seq<char>>::empty());
    assert(resolved(pipeline, names.drop_last()) == Seq::<JobView>::empty());
    assert(names.last() == name);
    if pipeline.contains_key(name) {
        assert(resolved(pipeline, names) =~= seq![pipeline[name]]);
    }
}

/// Names of which none resolves enqueue nothing.
pub proof fn lemma_unresolved_enqueue_nothing(
    pipeline: Map<Seq<char>, JobView>,
    names: Seq<Seq<char>>,
)
    requires
        forall|i: int| 0 <= i < names.len() ==> !pipeline.contains_key(names[i]),
    ensures
        resolved(pipeline, names) == Seq::<JobView>::empty(),
    decreases names.len(),
{
    if names.len() > 0 {
        lemma_unresolved_enqueue_nothing(pipeline, names.drop_last());
    }
}

/// Each name gives at most one instance: as many jobs are enqueued as names
/// resolve.
pub proof fn lemma_resolved_len(pipeline: Map<Seq<char>, JobView>, names: Seq<Seq<char>>)
    ensures
        resolved(pipeline, names).len() == found_flags(pipeline, names).filter(
            |found: bool| found,
        ).len(),
    decreases names.len(),
{
    let flags = found_flags(pipeline, names);
    let is_true = |found: bool| found;
    if names.len() > 0 {
        lemma_resolved_len(pipeline, names.drop_last());
        assert(flags.drop_last() =~= found_flags(pipeline, names.drop_last()));
        reveal(Seq::filter);
    } else {
        assert(flags.filter(is_true) =~= Seq::<bool>::empty()) by {
            reveal(Seq::filter);
        }
    }
}

/// Admits pending jobs, head first, until the queue hands out no more:
/// as many as are pending, up to the free slots. Each admitted job takes a
/// slot until its run is ended with `finish`.
pub fn admit_ready(queue: &mut JobQueue) -> (jobs: Vec<Job>)
    ensures
        jobs.deep_view() == old(queue)@.pending.take(old(queue)@.admissible() as int),
        final(queue)@ == old(queue)@.admit_all(),
        final(queue).shared_notifier() == old(queue).shared_notifier(),
{
    let mut jobs: Vec<Job> = Vec::new();
    proof {
        assert(jobs.deep_view() =~= old(queue)@.pending.take(0));
        assert(queue@.pending =~= old(queue)@.pending.skip(0));
    }
    loop
        invariant_except_break
            jobs.len() <= old(queue)@.admissible(),
            jobs.deep_view() == old(queue)@.pending.take(jobs.len() as int),
            queue@.pending == old(queue)@.pending.skip(jobs.len() as int),
            queue@.running == old(queue)@.running + jobs.len(),
            queue@.max_concurrent == old(queue)@.max_concurrent,
            queue.shared_notifier() == old(queue).shared_notifier(),
        ensures
            jobs.deep_view() == old(queue)@.pending.take(old(queue)@.admissible() as int),
            queue@ == old(queue)@.admit_all(),
            queue.shared_notifier() == old(queue).shared_notifier(),
        decreases queue@.pending.len(),
    {
        let ghost admitted = jobs.deep_view();
        let ghost before = queue@;
        match queue.next_job() {
            Some(job) => {
                jobs.push(job);
                proof {
                    let pending = old(queue)@.pending;
                    let count = jobs.len() as int;
                    assert(before.admits());
                    assert(before.pending[0] == pending[count - 1]);
                    assert(jobs.deep_view() =~= admitted.push(job@));
                    assert(pending.take(count) =~= pending.take(count - 1).push(
                        pending[count - 1],
                    ));
                    assert(queue@.pending =~= pending.skip(count));
                }
            },
            None => {
                assert(!before.admits());
                assert(jobs.len() == old(queue)@.admissible());
                break;
            },
        }
    }
    jobs
}

/// Enqueues a fresh instance of every job that `names` resolve to, in the
/// order of `names`. A name without a job is skipped and enqueues nothing.
/// The result tells for each name whether it resolved.
pub fn trigger_jobs(queue: &mut JobQueue, pipeline: &Pipeline, names: &Vec<String>) -> (found: Vec<
    bool,
>)
    ensures
        final(queue)@ == old(queue)@.enqueue_all(resolved(pipeline@, names.deep_view())),
        found@ == found_flags(pipeline@, names.deep_view()),
        final(queue).shared_notifier() == old(queue).shared_notifier(),
{
    let mut found: Vec<bool> = Vec::new();
    let mut i: usize = 0;
    proof {
        assert(names.deep_view().take(0) =~= Seq::<Seq<char>>::empty());
        assert(queue@.pending + Seq::<JobView>::empty() =~= queue@.pending);
    }
    while i < names.len()
        invariant
            i <= names.len(),
            queue@ == old(queue)@.enqueue_all(
                resolved(pipeline@, names.deep_view().take(i as int)),
            ),
            found@ == found_flags(pipeline@, names.deep_view().take(i as int)),
            queue.shared_notifier() == old(queue).shared_notifier(),
        decreases names.len() - i,
    {
        let ghost before = names.deep_view().take(i as int);
        let ghost upto = names.deep_view().take(i + 1);
        proof {
            assert(upto.drop_last() =~= before);
            assert(upto.last() == names[i as int]@);
        }
        match pipeline.get(names[i].as_str()) {
            Some(job) => {
                queue.enqueue(job.clone());
                found.push(true);
                assert(queue@.pending =~= old(queue)@.pending + resolved(pipeline@, upto));
            },
            None => {
                found.push(false);
            },
        }
        assert(found@ =~= found_flags(pipeline@, upto));
        i = i + 1;
    }
    assert(names.deep_view().take(i as int) =~= names.deep_view());
    found
}

/// Ends the run of `job`: enqueues the jobs it triggers, as `trigger_jobs`
/// does, then releases its slot. The cascade does not depend on how the run
/// ended.
pub fn finish(queue: &mut JobQueue, pipeline: &Pipeline, job: &Job) -> (found: Vec<bool>)
    ensures
        final(queue)@ == old(queue)@.enqueue_all(
            resolved(pipeline@, job@.trigger_names()),
        ).job_done(),
        found@ == found_flags(pipeline@, job@.trigger_names()),
        final(queue)@.wf(),
        final(queue).shared_notifier() == old(queue).shared_notifier(),
{
    let found = match &job.triggers {
        Some(names) => trigger_jobs(queue, pipeline, names),
        None => {
            assert(queue@.pending + Seq::<JobView>::empty() =~= queue@.pending);
            Vec::new()
        },
    };
    queue.job_done();
    found
}

} // verus!
