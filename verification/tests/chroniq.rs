use oxipipe::chroniq::ScheduleTable;
use oxipipe::clock::Clock;
use oxipipe::clock::Reading;
use oxipipe::job::Job;
use oxipipe::job_queue::JobQueue;
use oxipipe::pipeline::Pipeline;
use oxipipe::schedule::ParseError;
use oxipipe::schedule::Schedule;

const SECOND: u128 = 1_000_000_000;

fn job(schedule: Option<&str>) -> Job {
    Job {
        name: None,
        image: "alpine".to_string(),
        command: vec![],
        environment: None,
        artifacts: None,
        schedule: schedule.map(|s| s.to_string()),
        triggers: None,
        dependencies: None,
    }
}

fn at(unix_secs: i64, monotonic_secs: u128) -> Reading {
    Reading { unix_secs, monotonic_nanos: monotonic_secs * SECOND }
}

fn pipeline() -> Pipeline {
    Pipeline::new()
        .with_job("fast".to_string(), job(Some("@every 10s")))
        .with_job("manual".to_string(), job(None))
        .with_job("slow".to_string(), job(Some("@every 1m")))
        .with_job("minutely".to_string(), job(Some("0 * * * * *")))
}

fn entry_names(table: &ScheduleTable) -> Vec<String> {
    table.entries.iter().map(|entry| entry.name.clone()).collect()
}

#[test]
fn table_holds_one_schedule_per_scheduled_job() {
    let table = ScheduleTable::from_pipeline_at(&pipeline(), &at(1_700_000_000, 0)).unwrap();
    assert_eq!(
        entry_names(&table),
        vec!["fast".to_string(), "slow".to_string(), "minutely".to_string()]
    );
    match &table.entries[1].schedule {
        Schedule::Interval { period, next_run } => {
            assert_eq!(*period, 60 * SECOND);
            assert_eq!(*next_run, Some(60 * SECOND));
        }
        Schedule::Cron { .. } => panic!("expected an interval"),
    }
    match &table.entries[2].schedule {
        Schedule::Cron { next_run, .. } => assert_eq!(*next_run, Some(1_700_000_040)),
        Schedule::Interval { .. } => panic!("expected a cron schedule"),
    }
}

#[test]
fn table_names_each_job_once() {
    let pipeline = pipeline()
        .with_job("fast".to_string(), job(Some("@every 20s")))
        .with_job("manual".to_string(), job(Some("*/5 * * * *")));
    let table = ScheduleTable::from_pipeline_at(&pipeline, &at(1_700_000_000, 0)).unwrap();
    assert_eq!(
        entry_names(&table),
        vec![
            "fast".to_string(),
            "manual".to_string(),
            "slow".to_string(),
            "minutely".to_string()
        ]
    );
    match &table.entries[0].schedule {
        Schedule::Interval { period, .. } => assert_eq!(*period, 20 * SECOND),
        Schedule::Cron { .. } => panic!("expected an interval"),
    }
}

#[test]
fn table_of_a_pipeline_without_schedules_is_empty() {
    let pipeline = Pipeline::new().with_job("a".to_string(), job(None));
    let table = ScheduleTable::from_pipeline_at(&pipeline, &at(0, 0)).unwrap();
    assert!(table.entries.is_empty());
}

#[test]
fn invalid_schedule_gives_no_table() {
    let bad_interval = Pipeline::new()
        .with_job("ok".to_string(), job(Some("@every 10s")))
        .with_job("bad".to_string(), job(Some("@every notaduration")));
    assert_eq!(
        ScheduleTable::from_pipeline_at(&bad_interval, &at(0, 0)).err(),
        Some(ParseError::InvalidDuration)
    );
    let bad_cron = Pipeline::new()
        .with_job("bad".to_string(), job(Some("not a cron")))
        .with_job("ok".to_string(), job(Some("@every 10s")));
    assert_eq!(
        ScheduleTable::from_pipeline_at(&bad_cron, &at(0, 0)).err(),
        Some(ParseError::InvalidCronExpression)
    );
}

#[test]
fn first_invalid_schedule_decides_the_error() {
    let pipeline = Pipeline::new()
        .with_job("first".to_string(), job(Some("not a cron")))
        .with_job("second".to_string(), job(Some("@every notaduration")));
    assert_eq!(
        ScheduleTable::from_pipeline_at(&pipeline, &at(0, 0)).err(),
        Some(ParseError::InvalidCronExpression)
    );
}

#[test]
fn tick_enqueues_every_due_job() {
    let pipeline = pipeline();
    let mut table = ScheduleTable::from_pipeline_at(&pipeline, &at(1_700_000_000, 0)).unwrap();
    let mut queue = JobQueue::new(1);

    let tick = table.tick_at(&pipeline, &mut queue, &at(1_700_000_005, 5));
    assert!(tick.due.is_empty());
    assert!(tick.found.is_empty());
    assert_eq!(queue.pending(), 0);

    let tick = table.tick_at(&pipeline, &mut queue, &at(1_700_000_010, 10));
    assert_eq!(tick.due, vec!["fast".to_string()]);
    assert_eq!(tick.found, vec![true]);
    assert_eq!(queue.pending(), 1);

    let tick = table.tick_at(&pipeline, &mut queue, &at(1_700_000_010, 10));
    assert!(tick.due.is_empty());
    assert_eq!(queue.pending(), 1);

    let tick = table.tick_at(&pipeline, &mut queue, &at(1_700_000_060, 60));
    assert_eq!(
        tick.due,
        vec!["fast".to_string(), "slow".to_string(), "minutely".to_string()]
    );
    assert_eq!(tick.found, vec![true, true, true]);
    assert_eq!(queue.pending(), 4);
    let mut order = Vec::new();
    while let Some(job) = queue.next_job() {
        order.push(job.name.unwrap());
        queue.job_done();
    }
    assert_eq!(
        order,
        vec!["fast".to_string(), "fast".to_string(), "slow".to_string(), "minutely".to_string()]
    );
}

#[test]
fn due_schedule_without_job_enqueues_nothing() {
    let scheduled = Pipeline::new().with_job("gone".to_string(), job(Some("@every 1s")));
    let mut table = ScheduleTable::from_pipeline_at(&scheduled, &at(0, 0)).unwrap();
    let other = Pipeline::new();
    let mut queue = JobQueue::new(1);
    let tick = table.tick_at(&other, &mut queue, &at(0, 1));
    assert_eq!(tick.due, vec!["gone".to_string()]);
    assert_eq!(tick.found, vec![false]);
    assert_eq!(queue.pending(), 0);
}

#[test]
fn due_at_rearms_the_due_schedules_only() {
    let pipeline = pipeline();
    let mut table = ScheduleTable::from_pipeline_at(&pipeline, &at(1_700_000_000, 0)).unwrap();
    assert_eq!(table.due_at(&at(1_700_000_000, 25)), vec!["fast".to_string()]);
    match &table.entries[0].schedule {
        Schedule::Interval { next_run, .. } => assert_eq!(*next_run, Some(30 * SECOND)),
        Schedule::Cron { .. } => panic!("expected an interval"),
    }
    match &table.entries[1].schedule {
        Schedule::Interval { next_run, .. } => assert_eq!(*next_run, Some(60 * SECOND)),
        Schedule::Cron { .. } => panic!("expected an interval"),
    }
}

#[test]
fn tick_against_the_real_clock() {
    let pipeline = Pipeline::new().with_job("soon".to_string(), job(Some("@every 1ms")));
    let clock = Clock::start();
    let mut table = ScheduleTable::from_pipeline(&pipeline, &clock).unwrap();
    let mut queue = JobQueue::new(1);
    let deadline = match &table.entries[0].schedule {
        Schedule::Interval { next_run, .. } => next_run.unwrap(),
        Schedule::Cron { .. } => panic!("expected an interval"),
    };
    while clock.now().monotonic_nanos < deadline {}
    let tick = table.tick(&pipeline, &mut queue, &clock);
    assert_eq!(tick.due, vec!["soon".to_string()]);
    assert_eq!(queue.pending(), 1);
    let bad = Pipeline::new().with_job("bad".to_string(), job(Some("not a cron")));
    assert_eq!(
        ScheduleTable::from_pipeline(&bad, &clock).err(),
        Some(ParseError::InvalidCronExpression)
    );
}
