//! Orchestration engine for container job pipelines: the job and pipeline
//! model, schedule evaluation, the concurrency-limited job queue, and the
//! decisions of the poller and of the dispatch loop.

pub mod chroniq;
pub mod clock;
pub mod duration;
pub mod job;
pub mod job_queue;
pub mod pipeline;
pub mod queue_model;
pub mod schedule;
pub mod scheduler;
pub mod text;
