use futures::FutureExt;
use oxipipe::job::Job;
use oxipipe::job_queue::JobQueue;

fn job(name: &str) -> Job {
    Job {
        name: Some(name.to_string()),
        image: "alpine".to_string(),
        command: vec!["true".to_string()],
        environment: None,
        artifacts: None,
        schedule: None,
        triggers: None,
        dependencies: None,
    }
}

fn name_of(job: Option<Job>) -> Option<String> {
    job.and_then(|j| j.name)
}

#[test]
fn new_queue_is_empty() {
    let queue = JobQueue::new(3);
    assert_eq!(queue.running(), 0);
    assert_eq!(queue.pending(), 0);
    assert_eq!(queue.max_concurrent(), 3);
}

#[test]
fn next_job_on_empty_queue_is_none() {
    let mut queue = JobQueue::new(1);
    assert!(queue.next_job().is_none());
    assert_eq!(queue.running(), 0);
}

#[test]
fn enqueue_then_next_job_returns_the_instance() {
    let mut queue = JobQueue::new(1);
    let mut a = job("a");
    a.image = "busybox:1.36".to_string();
    a.command = vec!["echo".to_string(), "hi".to_string()];
    a.environment = Some(vec!["K=V".to_string()]);
    a.artifacts = Some("/out".to_string());
    a.schedule = Some("@every 5m".to_string());
    a.triggers = Some(vec!["b".to_string()]);
    a.dependencies = Some(vec!["c".to_string()]);
    queue.enqueue(a);
    let got = queue.next_job().expect("a free slot and a pending job");
    assert_eq!(got.name, Some("a".to_string()));
    assert_eq!(got.image, "busybox:1.36");
    assert_eq!(got.command, vec!["echo".to_string(), "hi".to_string()]);
    assert_eq!(got.environment, Some(vec!["K=V".to_string()]));
    assert_eq!(got.artifacts, Some("/out".to_string()));
    assert_eq!(got.schedule, Some("@every 5m".to_string()));
    assert_eq!(got.triggers, Some(vec!["b".to_string()]));
    assert_eq!(got.dependencies, Some(vec!["c".to_string()]));
    assert_eq!(queue.running(), 1);
    assert_eq!(queue.pending(), 0);
}

#[test]
fn pending_jobs_leave_first_in_first_out() {
    let mut queue = JobQueue::new(2);
    queue.enqueue(job("a"));
    queue.enqueue(job("b"));
    assert_eq!(name_of(queue.next_job()), Some("a".to_string()));
    assert_eq!(name_of(queue.next_job()), Some("b".to_string()));
    assert_eq!(queue.running(), 2);
}

#[test]
fn fifo_holds_across_interleaved_enqueues() {
    let mut queue = JobQueue::new(10);
    queue.enqueue(job("a"));
    queue.enqueue(job("b"));
    assert_eq!(name_of(queue.next_job()), Some("a".to_string()));
    queue.enqueue(job("c"));
    assert_eq!(name_of(queue.next_job()), Some("b".to_string()));
    assert_eq!(name_of(queue.next_job()), Some("c".to_string()));
    assert!(queue.next_job().is_none());
}

#[test]
fn full_queue_blocks_until_a_job_is_done() {
    let mut queue = JobQueue::new(1);
    queue.enqueue(job("a"));
    queue.enqueue(job("b"));
    assert_eq!(name_of(queue.next_job()), Some("a".to_string()));
    assert!(queue.next_job().is_none());
    assert_eq!(queue.pending(), 1);
    assert_eq!(queue.running(), 1);
    queue.job_done();
    assert_eq!(queue.running(), 0);
    assert_eq!(name_of(queue.next_job()), Some("b".to_string()));
    assert_eq!(queue.running(), 1);
}

#[test]
fn running_never_exceeds_the_ceiling() {
    let mut queue = JobQueue::new(2);
    for i in 0..5 {
        queue.enqueue(job(&format!("job{}", i)));
    }
    let mut admitted = 0;
    for _ in 0..5 {
        if queue.next_job().is_some() {
            admitted += 1;
        }
        assert!(queue.running() <= 2);
    }
    assert_eq!(admitted, 2);
    assert_eq!(queue.running(), 2);
    assert_eq!(queue.pending(), 3);
    queue.job_done();
    assert!(queue.next_job().is_some());
    assert!(queue.next_job().is_none());
    assert_eq!(queue.running(), 2);
}

#[test]
fn job_done_stops_at_zero() {
    let mut queue = JobQueue::new(2);
    queue.job_done();
    assert_eq!(queue.running(), 0);
    queue.enqueue(job("a"));
    assert!(queue.next_job().is_some());
    queue.job_done();
    queue.job_done();
    assert_eq!(queue.running(), 0);
}

#[test]
fn ceiling_of_zero_admits_nothing() {
    let mut queue = JobQueue::new(0);
    queue.enqueue(job("a"));
    assert!(queue.next_job().is_none());
    queue.job_done();
    assert!(queue.next_job().is_none());
    assert_eq!(queue.pending(), 1);
}

#[test]
fn enqueue_accepts_duplicates() {
    let mut queue = JobQueue::new(3);
    queue.enqueue(job("a"));
    queue.enqueue(job("a"));
    assert_eq!(queue.pending(), 2);
    assert_eq!(name_of(queue.next_job()), Some("a".to_string()));
    assert_eq!(name_of(queue.next_job()), Some("a".to_string()));
}

#[test]
fn enqueue_and_job_done_wake_a_waiting_task() {
    let mut queue = JobQueue::new(1);
    let notifier = queue.notifier();
    assert!(notifier.notified().now_or_never().is_none());

    queue.enqueue(job("a"));
    assert!(notifier.notified().now_or_never().is_some());
    assert!(notifier.notified().now_or_never().is_none());

    assert!(queue.next_job().is_some());
    assert!(notifier.notified().now_or_never().is_none());

    queue.job_done();
    assert!(notifier.notified().now_or_never().is_some());
    assert!(notifier.notified().now_or_never().is_none());
}

#[test]
fn notifier_handles_share_one_notifier() {
    let mut queue = JobQueue::new(1);
    let first = queue.notifier();
    let second = queue.notifier();
    queue.enqueue(job("a"));
    assert!(second.notified().now_or_never().is_some());
    assert!(first.notified().now_or_never().is_none());
}
