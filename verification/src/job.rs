//! Job definitions and what a run of a job needs from them: the container
//! to create, its bind mounts and the place of its log.

use vstd::prelude::*;
use vstd::string::*;

verus! {

/// One job of a pipeline. A job instance placed in the queue is a copy of
/// its definition.
#[derive(Debug)]
pub struct Job {
    pub name: Option<String>,
    pub image: String,
    pub command: Vec<String>,
    pub environment: Option<Vec<String>>,
    pub artifacts: Option<String>,
    pub schedule: Option<String>,
    pub triggers: Option<Vec<String>>,
    pub dependencies: Option<Vec<String>>,
}

/// A job as a mathematical value: every string is its character sequence.
pub struct JobView {
    pub name: Option<Seq<char>>,
    pub image: Seq<char>,
    pub command: Seq<Seq<char>>,
    pub environment: Option<Seq<Seq<char>>>,
    pub artifacts: Option<Seq<char>>,
    pub schedule: Option<Seq<char>>,
    pub triggers: Option<Seq<Seq<char>>>,
    pub dependencies: Option<Seq<Seq<char>>>,
}

impl View for Job {
    type V = JobView;

    open spec fn view(&self) -> JobView {
        JobView {
            name: self.name.deep_view(),
            image: self.image@,
            command: self.command.deep_view(),
            environment: self.environment.deep_view(),
            artifacts: self.artifacts.deep_view(),
            schedule: self.schedule.deep_view(),
            triggers: self.triggers.deep_view(),
            dependencies: self.dependencies.deep_view(),
        }
    }
}

impl DeepView for Job {
    type V = JobView;

    open spec fn deep_view(&self) -> JobView {
        self@
    }
}

/// Host directory that keeps the artifacts of the job called `name`.
pub open spec fn host_workspace(name: Seq<char>) -> Seq<char> {
    "/tmp/oxipipe/artifacts/"@ + name + "/workspace"@
}

/// Host directory that keeps the log of the job called `name`.
pub open spec fn host_log_dir(name: Seq<char>) -> Seq<char> {
    "/tmp/oxipipe/artifacts/"@ + name + "/logs"@
}

/// File that receives the output of the job called `name`.
pub open spec fn host_log_file(name: Seq<char>) -> Seq<char> {
    host_log_dir(name) + "/output.log"@
}

/// Name of the container that runs the job called `name`.
pub open spec fn container_name_of(name: Seq<char>) -> Seq<char> {
    "oxipipe-"@ + name
}

/// Bind mount that exposes the workspace of dependency `dep` to a job.
pub open spec fn dependency_mount(dep: Seq<char>) -> Seq<char> {
    host_workspace(dep) + ":/artifacts/"@ + dep
}

impl JobView {
    /// Bind mount of the job's own workspace, if it keeps artifacts.
    pub open spec fn artifact_mounts(self, name: Seq<char>) -> Seq<Seq<char>> {
        match self.artifacts {
            Some(path) => seq![host_workspace(name) + ":"@ + path],
            None => Seq::empty(),
        }
    }

    /// The dependencies of the job, none where the list is absent.
    pub open spec fn dependency_names(self) -> Seq<Seq<char>> {
        match self.dependencies {
            Some(deps) => deps,
            None => Seq::empty(),
        }
    }

    /// The jobs to enqueue once this one has finished, none where the list
    /// is absent.
    pub open spec fn trigger_names(self) -> Seq<Seq<char>> {
        match self.triggers {
            Some(names) => names,
            None => Seq::empty(),
        }
    }

    /// All bind mounts of a run under `name`: the job's own workspace first,
    /// then one mount per dependency, in the order they are listed.
    pub open spec fn mounts(self, name: Seq<char>) -> Seq<Seq<char>> {
        self.artifact_mounts(name) + self.dependency_names().map_values(
            |dep: Seq<char>| dependency_mount(dep),
        )
    }

    /// The container that a run under `name` creates.
    pub open spec fn container(self, name: Seq<char>) -> ContainerSpecView {
        ContainerSpecView {
            name: container_name_of(name),
            image: self.image,
            command: self.command,
            environment: self.environment,
            binds: self.mounts(name),
            auto_remove: true,
        }
    }
}

/// What the execution backend is asked to create for one run.
#[derive(Debug)]
pub struct ContainerSpec {
    pub name: String,
    pub image: String,
    pub command: Vec<String>,
    pub environment: Option<Vec<String>>,
    pub binds: Vec<String>,
    pub auto_remove: bool,
}

/// A container request as a mathematical value.
pub struct ContainerSpecView {
    pub name: Seq<char>,
    pub image: Seq<char>,
    pub command: Seq<Seq<char>>,
    pub environment: Option<Seq<Seq<char>>>,
    pub binds: Seq<Seq<char>>,
    pub auto_remove: bool,
}

impl View for ContainerSpec {
    type V = ContainerSpecView;

    open spec fn view(&self) -> ContainerSpecView {
        ContainerSpecView {
            name: self.name@,
            image: self.image@,
            command: self.command.deep_view(),
            environment: self.environment.deep_view(),
            binds: self.binds.deep_view(),
            auto_remove: self.auto_remove,
        }
    }
}

/// Copies a list of strings.
fn clone_strings(list: &Vec<String>) -> (copy: Vec<String>)
    ensures
        copy.deep_view() == list.deep_view(),
{
    let mut copy: Vec<String> = Vec::new();
    let mut i: usize = 0;
    while i < list.len()
        invariant
            i <= list.len(),
            copy.len() == i,
            forall|k: int| 0 <= k < i ==> copy[k]@ == list[k]@,
        decreases list.len() - i,
    {
        copy.push(list[i].clone());
        i = i + 1;
    }
    assert(copy.deep_view() =~= list.deep_view());
    copy
}

/// Copies an optional string.
fn clone_optional_string(text: &Option<String>) -> (copy: Option<String>)
    ensures
        copy.deep_view() == text.deep_view(),
{
    match text {
        Some(s) => Some(s.clone()),
        None => None,
    }
}

/// Copies an optional list of strings.
fn clone_optional_strings(list: &Option<Vec<String>>) -> (copy: Option<Vec<String>>)
    ensures
        copy.deep_view() == list.deep_view(),
{
    match list {
        Some(items) => Some(clone_strings(items)),
        None => None,
    }
}

impl Clone for Job {
    /// A copy with the same fields.
    fn clone(&self) -> (copy: Job)
        ensures
            copy@ == self@,
    {
        Job {
            name: clone_optional_string(&self.name),
            image: self.image.clone(),
            command: clone_strings(&self.command),
            environment: clone_optional_strings(&self.environment),
            artifacts: clone_optional_string(&self.artifacts),
            schedule: clone_optional_string(&self.schedule),
            triggers: clone_optional_strings(&self.triggers),
            dependencies: clone_optional_strings(&self.dependencies),
        }
    }
}

/// Host directory that keeps the artifacts of the job called `name`.
pub fn workspace_path(name: &str) -> (path: String)
    ensures
        path@ == host_workspace(name@),
{
    let mut path = String::from_str("/tmp/oxipipe/artifacts/");
    path.append(name);
    path.append("/workspace");
    path
}

/// Host directory that keeps the log of the job called `name`.
pub fn log_dir(name: &str) -> (path: String)
    ensures
        path@ == host_log_dir(name@),
{
    let mut path = String::from_str("/tmp/oxipipe/artifacts/");
    path.append(name);
    path.append("/logs");
    path
}

/// File that receives the output of the job called `name`.
pub fn log_file(name: &str) -> (path: String)
    ensures
        path@ == host_log_file(name@),
{
    let mut path = log_dir(name);
    path.append("/output.log");
    path
}

/// Name of the container that runs the job called `name`.
pub fn container_name(name: &str) -> (container: String)
    ensures
        container@ == container_name_of(name@),
{
    let mut container = String::from_str("oxipipe-");
    container.append(name);
    container
}

impl Job {
    /// The bind mounts of a run under `job_name`: the job's own workspace
    /// onto its artifacts path, where it has one, then the workspace of each
    /// dependency under `/artifacts/`.
    pub fn prepare_mounts(&self, job_name: &str) -> (mounts: Vec<String>)
        ensures
            mounts.deep_view() == self@.mounts(job_name@),
    {
        let mut mounts: Vec<String> = Vec::new();
        match &self.artifacts {
            Some(artifacts_path) => {
                let mut mount = workspace_path(job_name);
                mount.append(":");
                mount.append(artifacts_path.as_str());
                mounts.push(mount);
            },
            None => {},
        }
        assert(mounts.deep_view() =~= self@.artifact_mounts(job_name@));
        match &self.dependencies {
            Some(dependencies) => {
                let mut i: usize = 0;
                while i < dependencies.len()
                    invariant
                        i <= dependencies.len(),
                        self.dependencies == Some(*dependencies),
                        mounts.deep_view() == self@.artifact_mounts(job_name@)
                            + dependencies.deep_view().take(i as int).map_values(
                            |dep: Seq<char>| dependency_mount(dep),
                        ),
                    decreases dependencies.len() - i,
                {
                    let dep = dependencies[i].as_str();
                    let mut mount = workspace_path(dep);
                    mount.append(":/artifacts/");
                    mount.append(dep);
                    let ghost before = mounts.deep_view();
                    mounts.push(mount);
                    i = i + 1;
                    proof {
                        let f = |dep: Seq<char>| dependency_mount(dep);
                        let deps = dependencies.deep_view();
                        assert(deps.take(i as int).map_values(f) =~= deps.take(i - 1).map_values(
                            f,
                        ).push(f(deps[i - 1])));
                        assert(mounts.deep_view() =~= before.push(mount@));
                    }
                }
                assert(dependencies.deep_view().take(i as int) =~= dependencies.deep_view());
            },
            None => {
                assert(mounts.deep_view() =~= self@.mounts(job_name@));
            },
        }
        mounts
    }

    /// The container that a run under `name` asks for: named after the job,
    /// with the job's image, command and environment, the mounts of
    /// `prepare_mounts`, and removed once it has stopped.
    pub fn container_spec(&self, name: &str) -> (spec: ContainerSpec)
        ensures
            spec@ == self@.container(name@),
    {
        ContainerSpec {
            name: container_name(name),
            image: self.image.clone(),
            command: clone_strings(&self.command),
            environment: clone_optional_strings(&self.environment),
            binds: self.prepare_mounts(name),
            auto_remove: true,
        }
    }
}

} // verus!
