use oxipipe::job::Job;
use oxipipe::job_queue::JobQueue;
use oxipipe::pipeline::Pipeline;
use oxipipe::scheduler::admit_ready;
use oxipipe::scheduler::finish;
use oxipipe::scheduler::trigger_jobs;

fn job(triggers: Option<Vec<&str>>) -> Job {
    Job {
        name: None,
        image: "alpine".to_string(),
        command: vec!["true".to_string()],
        environment: None,
        artifacts: None,
        schedule: None,
        triggers: triggers.map(|names| names.into_iter().map(|n| n.to_string()).collect()),
        dependencies: None,
    }
}

fn names(list: &[&str]) -> Vec<String> {
    list.iter().map(|n| n.to_string()).collect()
}

fn drain(queue: &mut JobQueue) -> Vec<String> {
    let mut out = Vec::new();
    while let Some(job) = queue.next_job() {
        out.push(job.name.unwrap());
        queue.job_done();
    }
    out
}

#[test]
fn cascade_enqueues_the_triggered_job_once() {
    let pipeline = Pipeline::new()
        .with_job("A".to_string(), job(Some(vec!["B"])))
        .with_job("B".to_string(), job(None));
    let mut queue = JobQueue::new(1);
    assert_eq!(trigger_jobs(&mut queue, &pipeline, &names(&["A"])), vec![true]);
    let a = queue.next_job().unwrap();
    assert_eq!(a.name, Some("A".to_string()));
    assert_eq!(queue.running(), 1);
    // the execution backend runs A here; whether it fails plays no part
    assert_eq!(finish(&mut queue, &pipeline, &a), vec![true]);
    assert_eq!(queue.running(), 0);
    assert_eq!(queue.pending(), 1);
    let b = queue.next_job().unwrap();
    assert_eq!(b.name, Some("B".to_string()));
    assert_eq!(finish(&mut queue, &pipeline, &b), Vec::<bool>::new());
    assert_eq!(queue.pending(), 0);
    assert_eq!(queue.running(), 0);
    assert!(queue.next_job().is_none());
}

#[test]
fn unresolved_trigger_enqueues_nothing() {
    let pipeline = Pipeline::new().with_job("A".to_string(), job(Some(vec!["Z"])));
    let mut queue = JobQueue::new(1);
    trigger_jobs(&mut queue, &pipeline, &names(&["A"]));
    let a = queue.next_job().unwrap();
    assert_eq!(finish(&mut queue, &pipeline, &a), vec![false]);
    assert_eq!(queue.pending(), 0);
    assert_eq!(queue.running(), 0);
    assert!(queue.next_job().is_none());
}

#[test]
fn unresolved_trigger_skips_only_itself() {
    let pipeline = Pipeline::new()
        .with_job("A".to_string(), job(Some(vec!["Z", "C", "Y", "B"])))
        .with_job("B".to_string(), job(None))
        .with_job("C".to_string(), job(None));
    let mut queue = JobQueue::new(1);
    trigger_jobs(&mut queue, &pipeline, &names(&["A"]));
    let a = queue.next_job().unwrap();
    assert_eq!(finish(&mut queue, &pipeline, &a), vec![false, true, false, true]);
    assert_eq!(drain(&mut queue), names(&["C", "B"]));
}

#[test]
fn finish_releases_the_slot_after_the_cascade() {
    let pipeline = Pipeline::new()
        .with_job("A".to_string(), job(Some(vec!["B"])))
        .with_job("B".to_string(), job(None));
    let mut queue = JobQueue::new(1);
    trigger_jobs(&mut queue, &pipeline, &names(&["A"]));
    let a = queue.next_job().unwrap();
    assert!(queue.next_job().is_none());
    finish(&mut queue, &pipeline, &a);
    assert_eq!(queue.running(), 0);
    assert!(queue.next_job().is_some());
}

#[test]
fn a_job_that_triggers_itself_is_enqueued_again() {
    let pipeline = Pipeline::new().with_job("loop".to_string(), job(Some(vec!["loop"])));
    let mut queue = JobQueue::new(1);
    trigger_jobs(&mut queue, &pipeline, &names(&["loop"]));
    for _ in 0..3 {
        let j = queue.next_job().unwrap();
        assert_eq!(finish(&mut queue, &pipeline, &j), vec![true]);
        assert_eq!(queue.pending(), 1);
    }
}

#[test]
fn a_trigger_listed_twice_is_enqueued_twice() {
    let pipeline = Pipeline::new()
        .with_job("A".to_string(), job(Some(vec!["B", "B"])))
        .with_job("B".to_string(), job(None));
    let mut queue = JobQueue::new(4);
    let a = pipeline.get("A").unwrap().clone();
    assert_eq!(finish(&mut queue, &pipeline, &a), vec![true, true]);
    assert_eq!(queue.pending(), 2);
}

#[test]
fn trigger_jobs_keeps_the_order_of_the_names() {
    let pipeline = Pipeline::new()
        .with_job("a".to_string(), job(None))
        .with_job("b".to_string(), job(None))
        .with_job("c".to_string(), job(None));
    let mut queue = JobQueue::new(1);
    let found = trigger_jobs(&mut queue, &pipeline, &names(&["c", "nope", "a", "c"]));
    assert_eq!(found, vec![true, false, true, true]);
    assert_eq!(drain(&mut queue), names(&["c", "a", "c"]));
}

#[test]
fn trigger_jobs_with_no_names_changes_nothing() {
    let pipeline = Pipeline::new().with_job("a".to_string(), job(None));
    let mut queue = JobQueue::new(1);
    assert!(trigger_jobs(&mut queue, &pipeline, &vec![]).is_empty());
    assert_eq!(queue.pending(), 0);
}

#[test]
fn an_enqueued_instance_is_a_copy_of_the_definition() {
    let mut definition = job(Some(vec!["next"]));
    definition.image = "img:1".to_string();
    definition.environment = Some(vec!["A=1".to_string()]);
    let pipeline = Pipeline::new().with_job("a".to_string(), definition);
    let mut queue = JobQueue::new(1);
    trigger_jobs(&mut queue, &pipeline, &names(&["a"]));
    let instance = queue.next_job().unwrap();
    let kept = pipeline.get("a").unwrap();
    assert_eq!(instance.name, Some("a".to_string()));
    assert_eq!(instance.image, kept.image);
    assert_eq!(instance.environment, kept.environment);
    assert_eq!(instance.triggers, kept.triggers);
}

fn names_of(jobs: Vec<Job>) -> Vec<String> {
    jobs.into_iter().map(|job| job.name.unwrap()).collect()
}

#[test]
fn admit_ready_takes_as_many_as_slots_are_free() {
    let pipeline = Pipeline::new()
        .with_job("a".to_string(), job(None))
        .with_job("b".to_string(), job(None))
        .with_job("c".to_string(), job(None));
    let mut queue = JobQueue::new(2);
    trigger_jobs(&mut queue, &pipeline, &names(&["a", "b", "c"]));
    assert_eq!(names_of(admit_ready(&mut queue)), names(&["a", "b"]));
    assert_eq!(queue.running(), 2);
    assert_eq!(queue.pending(), 1);
    assert!(admit_ready(&mut queue).is_empty());
    queue.job_done();
    assert_eq!(names_of(admit_ready(&mut queue)), names(&["c"]));
    assert_eq!(queue.running(), 2);
    assert_eq!(queue.pending(), 0);
}

#[test]
fn admit_ready_takes_all_that_are_pending() {
    let pipeline = Pipeline::new()
        .with_job("a".to_string(), job(None))
        .with_job("b".to_string(), job(None));
    let mut queue = JobQueue::new(5);
    trigger_jobs(&mut queue, &pipeline, &names(&["b", "a"]));
    assert_eq!(names_of(admit_ready(&mut queue)), names(&["b", "a"]));
    assert_eq!(queue.running(), 2);
    assert_eq!(queue.pending(), 0);
    assert!(admit_ready(&mut queue).is_empty());
}

#[test]
fn admit_ready_with_no_slot_takes_nothing() {
    let pipeline = Pipeline::new().with_job("a".to_string(), job(None));
    let mut queue = JobQueue::new(0);
    trigger_jobs(&mut queue, &pipeline, &names(&["a"]));
    assert!(admit_ready(&mut queue).is_empty());
    assert_eq!(queue.pending(), 1);
}
