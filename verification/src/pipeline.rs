//! The pipeline: every job definition under its key, fixed once it is
//! loaded and only read afterwards.

use vstd::hash_map::StringHashMap;
use vstd::prelude::*;
use crate::job::Job;
use crate::job::JobView;

verus! {

/// The jobs of a pipeline by key, and the keys in the order in which they
/// were first added.
pub struct Pipeline {
    jobs: StringHashMap<Job>,
    names: Vec<String>,
}

/// `job` with its name defaulted to `key`.
pub open spec fn named(job: JobView, key: Seq<char>) -> JobView {
    JobView {
        name: match job.name {
            Some(name) => Some(name),
            None => Some(key),
        },
        ..job
    }
}

/// The keys after `key` was added: unchanged where it was there already,
/// else with `key` at the end.
pub open spec fn keys_with(keys: Seq<Seq<char>>, key: Seq<char>) -> Seq<Seq<char>> {
    if keys.contains(key) {
        keys
    } else {
        keys.push(key)
    }
}

impl View for Pipeline {
    type V = Map<Seq<char>, JobView>;

    closed spec fn view(&self) -> Map<Seq<char>, JobView> {
        self.jobs@.map_values(|job: Job| job@)
    }
}

impl Pipeline {
    #[verifier::type_invariant]
    spec fn keys_match(self) -> bool {
        &&& forall|i: int|
            0 <= i < self.names.len() ==> self.jobs@.contains_key(#[trigger] self.names[i]@)
        &&& forall|key: Seq<char>| #[trigger]
            self.jobs@.contains_key(key) ==> self.names.deep_view().contains(key)
        &&& self.names.deep_view().no_duplicates()
        &&& forall|key: Seq<char>| #[trigger]
            self.jobs@.contains_key(key) ==> self.jobs@[key]@.name is Some
    }

    /// The keys of the pipeline in the order in which they were first added.
    pub closed spec fn keys(&self) -> Seq<Seq<char>> {
        self.names.deep_view()
    }

    /// A pipeline without jobs.
    pub fn new() -> (pipeline: Pipeline)
        ensures
            pipeline@ == Map::<Seq<char>, JobView>::empty(),
            pipeline.keys() == Seq::<Seq<char>>::empty(),
    {
        let pipeline = Pipeline { jobs: StringHashMap::new(), names: Vec::new() };
        assert(pipeline@ =~= Map::<Seq<char>, JobView>::empty());
        assert(pipeline.keys() =~= Seq::<Seq<char>>::empty());
        pipeline
    }

    /// The pipeline with `job` under `key`, in place of a job that was
    /// there before. A job without a name is named after its key.
    pub fn with_job(self, key: String, job: Job) -> (pipeline: Pipeline)
        ensures
            pipeline@ == self@.insert(key@, named(job@, key@)),
            pipeline.keys() == keys_with(self.keys(), key@),
    {
        proof {
            use_type_invariant(&self);
        }
        let Pipeline { mut jobs, mut names } = self;
        let ghost given = job@;
        let ghost old_jobs = jobs@;
        let ghost old_keys = names.deep_view();
        let mut job = job;
        if job.name.is_none() {
            job.name = Some(key.clone());
        }
        assert(job@ == named(given, key@));
        if !jobs.contains_key(key.as_str()) {
            names.push(key.clone());
            proof {
                assert(names.deep_view() =~= old_keys.push(key@));
                if old_keys.contains(key@) {
                    let i = choose|i: int| 0 <= i < old_keys.len() && old_keys[i] == key@;
                    assert(self.names[i]@ == key@);
                }
            }
        }
        jobs.insert(key, job);
        proof {
            let keys = names.deep_view();
            assert(keys == keys_with(old_keys, key@));
            assert(keys.contains(key@)) by {
                if !old_keys.contains(key@) {
                    assert(keys[keys.len() - 1] == key@);
                }
            }
            assert forall|i: int| 0 <= i < names.len() implies jobs@.contains_key(
                #[trigger] names[i]@,
            ) by {
                if i < old_keys.len() {
                    assert(names[i]@ == self.names[i]@);
                }
            }
            assert forall|other: Seq<char>| #[trigger]
                jobs@.contains_key(other) implies keys.contains(other) by {
                if other != key@ {
                    assert(old_jobs.contains_key(other));
                    let i = choose|i: int| 0 <= i < old_keys.len() && old_keys[i] == other;
                    assert(keys[i] == other);
                }
            }
            assert(keys.no_duplicates());
        }
        let pipeline = Pipeline { jobs, names };
        assert(pipeline@ =~= self@.insert(key@, named(given, key@)));
        pipeline
    }

    /// The job under `name`, if the pipeline has one. A job of a pipeline
    /// always has a name.
    pub fn get(&self, name: &str) -> (job: Option<&Job>)
        ensures
            job is Some <==> self@.contains_key(name@),
            job matches Some(found) ==> found@ == self@[name@] && found@.name is Some,
    {
        proof {
            use_type_invariant(self);
        }
        self.jobs.get(name)
    }

    /// The number of jobs.
    pub fn len(&self) -> (count: usize)
        ensures
            count == self.keys().len(),
            count == self@.len(),
    {
        proof {
            use_type_invariant(self);
            let keys = self.names.deep_view();
            keys.unique_seq_to_set();
            assert(keys.to_set() =~= self@.dom()) by {
                assert forall|key: Seq<char>| keys.contains(key) implies self@.dom().contains(
                    key,
                ) by {
                    let i = choose|i: int| 0 <= i < keys.len() && keys[i] == key;
                    assert(self.names[i]@ == key);
                }
            }
        }
        self.names.len()
    }

    /// The keys of the pipeline in the order in which they were first
    /// added. Each key of the pipeline is there once, and every job has a
    /// name.
    pub fn names(&self) -> (names: &Vec<String>)
        ensures
            names.deep_view() == self.keys(),
            self.keys().no_duplicates(),
            forall|key: Seq<char>| self.keys().contains(key) <==> self@.contains_key(key),
            forall|key: Seq<char>| #[trigger] self@.contains_key(key) ==> self@[key].name is Some,
    {
        proof {
            use_type_invariant(self);
            assert forall|key: Seq<char>| self.keys().contains(key) implies self@.contains_key(
                key,
            ) by {
                let i = choose|i: int| 0 <= i < self.keys().len() && self.keys()[i] == key;
                assert(self.names[i]@ == key);
            }
        }
        &self.names
    }
}

} // verus!
