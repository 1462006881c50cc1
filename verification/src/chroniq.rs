//! The schedule poller: the table of schedules and what one tick does.
//!
//! On every tick each schedule of the table is evaluated once, in the order
//! of the table, and a fresh instance of the job of every due schedule is
//! enqueued.

use vstd::prelude::*;
use crate::clock::Clock;
use crate::clock::Reading;
use crate::job::JobView;
use crate::job_queue::JobQueue;
use crate::pipeline::Pipeline;
use crate::schedule::parsed;
use crate::schedule::ParseError;
use crate::schedule::Schedule;
use crate::schedule::ScheduleView;
use crate::scheduler::found_flags;
use crate::scheduler::resolved;
use crate::scheduler::trigger_jobs;

verus! {

/// The schedule of the job under `name`.
#[derive(Debug)]
pub struct ScheduleEntry {
    pub name: String,
    pub schedule: Schedule,
}

/// A schedule entry as a mathematical value.
pub struct EntryView {
    pub name: Seq<char>,
    pub schedule: ScheduleView,
}

impl View for ScheduleEntry {
    type V = EntryView;

    open spec fn view(&self) -> EntryView {
        EntryView { name: self.name@, schedule: self.schedule@ }
    }
}

impl DeepView for ScheduleEntry {
    type V = EntryView;

    open spec fn deep_view(&self) -> EntryView {
        self@
    }
}

/// One schedule for each job that declares one.
#[derive(Debug)]
pub struct ScheduleTable {
    pub entries: Vec<ScheduleEntry>,
}

impl View for ScheduleTable {
    type V = Seq<EntryView>;

    open spec fn view(&self) -> Seq<EntryView> {
        self.entries.deep_view()
    }
}

/// What one tick did: the names of the schedules that were due, in the
/// order of the table, and for each whether the pipeline had its job.
#[derive(Debug)]
pub struct Tick {
    pub due: Vec<String>,
    pub found: Vec<bool>,
}

/// The table that the jobs under `keys` give when their schedules are
/// parsed at `now`, in the order of `keys`: one entry for each job that
/// declares a schedule. The error of the first schedule that does not parse
/// takes the place of the table.
pub open spec fn table_of(
    pipeline: Map<Seq<char>, JobView>,
    keys: Seq<Seq<char>>,
    now: Reading,
) -> Result<Seq<EntryView>, ParseError>
    decreases keys.len(),
{
    if keys.len() == 0 {
        Ok(Seq::empty())
    } else {
        match table_of(pipeline, keys.drop_last(), now) {
            Err(error) => Err(error),
            Ok(entries) => match pipeline[keys.last()].schedule {
                None => Ok(entries),
                Some(raw) => match parsed(raw, now) {
                    Ok(schedule) => Ok(entries.push(EntryView { name: keys.last(), schedule })),
                    Err(error) => Err(error),
                },
            },
        }
    }
}

/// The names of the entries, in the order of the table.
pub open spec fn entry_names(table: Seq<EntryView>) -> Seq<Seq<char>> {
    table.map_values(|entry: EntryView| entry.name)
}

/// The names of the entries that are due at `now`, in the order of the
/// table.
pub open spec fn due_names(table: Seq<EntryView>, now: Reading) -> Seq<Seq<char>>
    decreases table.len(),
{
    if table.len() == 0 {
        Seq::empty()
    } else {
        let earlier = due_names(table.drop_last(), now);
        if table.last().schedule.due(now) {
            earlier.push(table.last().name)
        } else {
            earlier
        }
    }
}

/// The table after every schedule was evaluated at `now`.
pub open spec fn evaluated(table: Seq<EntryView>, now: Reading) -> Seq<EntryView> {
    table.map_values(
        |entry: EntryView| EntryView { name: entry.name, schedule: entry.schedule.evaluated(now) },
    )
}

/// The outcome of building a table as a mathematical value.
pub open spec fn table_outcome(result: Result<ScheduleTable, ParseError>) -> Result<
    Seq<EntryView>,
    ParseError,
> {
    match result {
        Ok(table) => Ok(table@),
        Err(error) => Err(error),
    }
}

impl ScheduleTable {
    /// Parses the schedule of every job of `pipeline` that declares one, at
    /// the reading `now`, in the order of the pipeline's keys. If a schedule
    /// does not parse, its error is returned and there is no table.
    pub fn from_pipeline_at(pipeline: &Pipeline, now: &Reading) -> (result: Result<
        ScheduleTable,
        ParseError,
    >)
        ensures
            table_outcome(result) == table_of(pipeline@, pipeline.keys(), *now),
            result matches Ok(table) ==> entry_names(table@).no_duplicates(),
    {
        let names = pipeline.names();
        proof {
            lemma_table_names_distinct(pipeline@, pipeline.keys(), *now);
        }
        let mut entries: Vec<ScheduleEntry> = Vec::new();
        let mut i: usize = 0;
        proof {
            assert(names.deep_view().take(0) =~= Seq::<Seq<char>>::empty());
            assert(entries.deep_view() =~= Seq::<EntryView>::empty());
        }
        while i < names.len()
            invariant
                i <= names.len(),
                names.deep_view() == pipeline.keys(),
                forall|key: Seq<char>|
                    pipeline.keys().contains(key) <==> pipeline@.contains_key(key),
                table_of(pipeline@, names.deep_view().take(i as int), *now) == Ok::<
                    Seq<EntryView>,
                    ParseError,
                >(entries.deep_view()),
            decreases names.len() - i,
        {
            let ghost upto = names.deep_view().take(i + 1);
            proof {
                assert(upto.drop_last() =~= names.deep_view().take(i as int));
                assert(upto.last() == names[i as int]@);
                assert(pipeline.keys()[i as int] == names[i as int]@);
                assert(pipeline.keys().contains(names[i as int]@));
            }
            match pipeline.get(names[i].as_str()) {
                Some(job) => match &job.schedule {
                    Some(raw) => match Schedule::from_str_at(raw.as_str(), now) {
                        Ok(schedule) => {
                            let ghost before = entries.deep_view();
                            let entry = ScheduleEntry { name: names[i].clone(), schedule };
                            entries.push(entry);
                            assert(entries.deep_view() =~= before.push(entry@));
                        },
                        Err(error) => {
                            proof {
                                lemma_table_error_stays(
                                    pipeline@,
                                    names.deep_view(),
                                    i + 1,
                                    *now,
                                );
                                assert(names.deep_view().take(names.len() as int)
                                    =~= names.deep_view());
                            }
                            return Err(error);
                        },
                    },
                    None => {},
                },
                None => {},
            }
            i = i + 1;
        }
        assert(names.deep_view().take(i as int) =~= names.deep_view());
        Ok(ScheduleTable { entries })
    }

    /// Parses the schedules of `pipeline` at the present reading of
    /// `clock`.
    pub fn from_pipeline(pipeline: &Pipeline, clock: &Clock) -> (result: Result<
        ScheduleTable,
        ParseError,
    >)
        ensures
            exists|now: Reading|
                table_outcome(result) == #[trigger] table_of(pipeline@, pipeline.keys(), now),
            result matches Ok(table) ==> entry_names(table@).no_duplicates(),
    {
        let now = clock.now();
        Self::from_pipeline_at(pipeline, &now)
    }

    /// Evaluates every schedule at the reading `now` and returns the names
    /// of those that were due, in the order of the table.
    pub fn due_at(&mut self, now: &Reading) -> (due: Vec<String>)
        ensures
            due.deep_view() == due_names(old(self)@, *now),
            final(self)@ == evaluated(old(self)@, *now),
            entry_names(final(self)@) == entry_names(old(self)@),
    {
        let mut due: Vec<String> = Vec::new();
        let mut i: usize = 0;
        proof {
            assert(self@.take(0) =~= Seq::<EntryView>::empty());
            assert(due.deep_view() =~= Seq::<Seq<char>>::empty());
        }
        while i < self.entries.len()
            invariant
                i <= self.entries.len(),
                self.entries.len() == old(self).entries.len(),
                due.deep_view() == due_names(old(self)@.take(i as int), *now),
                forall|k: int| 0 <= k < i ==> #[trigger] self@[k] == evaluated(old(self)@, *now)[k],
                forall|k: int| i <= k < self.entries.len() ==> #[trigger] self@[k] == old(self)@[k],
            decreases self.entries.len() - i,
        {
            let ghost upto = old(self)@.take(i + 1);
            let ghost table = self@;
            proof {
                assert(upto.drop_last() =~= old(self)@.take(i as int));
                assert(upto.last() == old(self)@[i as int]);
                assert(self@[i as int] == old(self)@[i as int]);
            }
            let fired = self.entries[i].schedule.should_run_at(now);
            proof {
                assert(self@[i as int] == evaluated(old(self)@, *now)[i as int]);
                assert forall|k: int| 0 <= k < self.entries.len() && k != i implies
                    #[trigger] self@[k] == table[k] by {}
            }
            if fired {
                let ghost before = due.deep_view();
                let name = self.entries[i].name.clone();
                due.push(name);
                assert(due.deep_view() =~= before.push(name@));
            }
            i = i + 1;
        }
        proof {
            assert(old(self)@.take(i as int) =~= old(self)@);
            assert(self@ =~= evaluated(old(self)@, *now));
            assert(entry_names(self@) =~= entry_names(old(self)@));
        }
        due
    }

    /// One tick at the reading `now`: evaluates every schedule and enqueues
    /// a fresh instance of the job of each due one, in the order of the
    /// table. A due schedule whose job the pipeline lacks enqueues nothing.
    pub fn tick_at(&mut self, pipeline: &Pipeline, queue: &mut JobQueue, now: &Reading) -> (tick:
        Tick)
        ensures
            final(self)@ == evaluated(old(self)@, *now),
            tick.due.deep_view() == due_names(old(self)@, *now),
            tick.found@ == found_flags(pipeline@, due_names(old(self)@, *now)),
            final(queue)@ == old(queue)@.enqueue_all(
                resolved(pipeline@, due_names(old(self)@, *now)),
            ),
            final(queue).shared_notifier() == old(queue).shared_notifier(),
    {
        let due = self.due_at(now);
        let found = trigger_jobs(queue, pipeline, &due);
        Tick { due, found }
    }

    /// One tick at the present reading of `clock`.
    pub fn tick(&mut self, pipeline: &Pipeline, queue: &mut JobQueue, clock: &Clock) -> (tick:
        Tick)
        ensures
            exists|now: Reading|
                {
                    &&& final(self)@ == #[trigger] evaluated(old(self)@, now)
                    &&& tick.due.deep_view() == due_names(old(self)@, now)
                    &&& tick.found@ == found_flags(pipeline@, due_names(old(self)@, now))
                    &&& final(queue)@ == old(queue)@.enqueue_all(
                        resolved(pipeline@, due_names(old(self)@, now)),
                    )
                },
            final(queue).shared_notifier() == old(queue).shared_notifier(),
    {
        let now = clock.now();
        self.tick_at(pipeline, queue, &now)
    }
}

/// A table has at most one schedule for a name: the keys of a pipeline are
/// distinct, and each gives at most one entry, under its own name.
pub proof fn lemma_table_names_distinct(
    pipeline: Map<Seq<char>, JobView>,
    keys: Seq<Seq<char>>,
    now: Reading,
)
    requires
        keys.no_duplicates(),
    ensures
        table_of(pipeline, keys, now) matches Ok(entries) ==> {
            &&& entry_names(entries).no_duplicates()
            &&& forall|i: int|
                0 <= i < entries.len() ==> keys.contains(#[trigger] entries[i].name)
        },
    decreases keys.len(),
{
    if keys.len() > 0 {
        let front = keys.drop_last();
        lemma_table_names_distinct(pipeline, front, now);
        if let Ok(entries) = table_of(pipeline, keys, now) {
            let earlier = table_of(pipeline, front, now)->Ok_0;
            assert forall|i: int| 0 <= i < earlier.len() implies keys.contains(
                #[trigger] earlier[i].name,
            ) && earlier[i].name != keys.last() by {
                let at = choose|at: int| 0 <= at < front.len() && front[at] == earlier[i].name;
                assert(keys[at] == earlier[i].name);
            }
            assert(keys[keys.len() - 1] == keys.last());
            if entries.len() > earlier.len() {
                assert(entries =~= earlier.push(entries.last()));
                assert(entries.last().name == keys.last());
            } else {
                assert(entries =~= earlier);
            }
            assert forall|i: int, j: int|
                0 <= i < entries.len() && 0 <= j < entries.len() && i != j implies entry_names(
                entries,
            )[i] != entry_names(entries)[j] by {
                if i < earlier.len() && j < earlier.len() {
                    assert(entry_names(earlier)[i] != entry_names(earlier)[j]);
                }
            }
        }
    } else {
        assert(entry_names(Seq::<EntryView>::empty()) =~= Seq::<Seq<char>>::empty());
    }
}

/// One schedule that does not parse is enough for there to be no table:
/// no schedule is kept, neither for that job nor for another.
pub proof fn lemma_invalid_schedule_gives_no_table(
    pipeline: Map<Seq<char>, JobView>,
    keys: Seq<Seq<char>>,
    at: int,
    now: Reading,
)
    requires
        0 <= at < keys.len(),
        pipeline[keys[at]].schedule matches Some(raw) && parsed(raw, now) is Err,
    ensures
        table_of(pipeline, keys, now) is Err,
{
    assert(keys.take(at + 1).drop_last() =~= keys.take(at));
    assert(keys.take(at + 1).last() == keys[at]);
    lemma_table_error_stays(pipeline, keys, at + 1, now);
    assert(keys.take(keys.len() as int) =~= keys);
}

/// Once a prefix of the keys has failed to give a table, so does every
/// longer prefix, with the same error.
proof fn lemma_table_error_stays(
    pipeline: Map<Seq<char>, JobView>,
    keys: Seq<Seq<char>>,
    failed: int,
    now: Reading,
)
    requires
        0 <= failed <= keys.len(),
        table_of(pipeline, keys.take(failed), now) is Err,
    ensures
        table_of(pipeline, keys.take(keys.len() as int), now) == table_of(
            pipeline,
            keys.take(failed),
            now,
        ),
    decreases keys.len() - failed,
{
    if failed < keys.len() {
        assert(keys.take(failed + 1).drop_last() =~= keys.take(failed));
        lemma_table_error_stays(pipeline, keys, failed + 1, now);
    }
}

} // verus!
