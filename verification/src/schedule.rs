//! Schedules: a cron expression or a fixed interval, with the time at which
//! each fires next.
//!
//! A schedule is parsed from text and then evaluated against readings of the
//! clock. An evaluation that finds the schedule due re-arms it for the next
//! occurrence strictly after the reading, so each due occurrence is reported
//! once.

use vstd::prelude::*;
use vstd::string::*;
use crate::clock::Clock;
use crate::clock::Reading;
use crate::duration::duration_read;
use crate::duration::read_duration;
use crate::text::char_is_whitespace;
use crate::text::is_whitespace;
use crate::text::strip_prefix;
use crate::text::trim;
use crate::text::trimmed;

verus! {

/// `cron::error::Error`, the reason a cron expression was refused.
#[verifier::external_type_specification]
#[verifier::external_body]
pub struct ExCronError(cron::error::Error);

/// Whether `cron::Schedule` parses `expression`.
pub uninterp spec fn cron_valid(expression: Seq<char>) -> bool;

/// The first occurrence, in seconds since the Unix epoch, that the cron
/// schedule written as `expression` has strictly after the second `after`;
/// `None` where the expression is no schedule, where `after` lies before
/// the year 0, or where no occurrence is left.
pub uninterp spec fn cron_next(expression: Seq<char>, after: int) -> Option<int>;

/// The last second after which the next occurrence of a cron schedule is
/// looked for: the end of the year 9999. No cron schedule has an occurrence
/// beyond it.
pub const LAST_CRON_SECOND: i64 = 253_402_300_799;

/// Why a schedule text was refused.
#[derive(Clone, Copy, Debug, PartialEq, Eq, Structural)]
pub enum ParseError {
    /// What follows `@every ` is no duration.
    InvalidDuration,
    /// The text is no cron expression.
    InvalidCronExpression,
}

/// A schedule and the time at which it fires next. `None` for that time
/// means that no future occurrence can be reached: the schedule never fires.
#[derive(Debug)]
#[allow(inconsistent_fields)]
pub enum Schedule {
    /// A cron expression; `next_run` is in seconds since the Unix epoch.
    Cron { expression: String, next_run: Option<i64> },
    /// A period in nanoseconds; `next_run` is in nanoseconds of monotonic
    /// time.
    Interval { period: u128, next_run: Option<u128> },
}

/// A schedule as a mathematical value.
#[allow(inconsistent_fields)]
pub enum ScheduleView {
    Cron { expression: Seq<char>, next_run: Option<int> },
    Interval { period: nat, next_run: Option<nat> },
}

/// An optional second as an optional integer.
pub open spec fn second_of(value: Option<i64>) -> Option<int> {
    match value {
        Some(second) => Some(second as int),
        None => None,
    }
}

/// An optional count of nanoseconds as an optional natural number.
pub open spec fn nanos_of(value: Option<u128>) -> Option<nat> {
    match value {
        Some(nanos) => Some(nanos as nat),
        None => None,
    }
}

impl View for Schedule {
    type V = ScheduleView;

    open spec fn view(&self) -> ScheduleView {
        match self {
            Schedule::Cron { expression, next_run } => ScheduleView::Cron {
                expression: expression@,
                next_run: second_of(*next_run),
            },
            Schedule::Interval { period, next_run } => ScheduleView::Interval {
                period: *period as nat,
                next_run: nanos_of(*next_run),
            },
        }
    }
}

/// The prefix that marks an interval schedule.
pub open spec fn every_prefix() -> Seq<char> {
    "@every "@
}

/// The number of fields of `text`: of runs of characters that are no white
/// space.
pub open spec fn field_count(text: Seq<char>) -> nat
    decreases text.len(),
{
    if text.len() == 0 {
        0
    } else {
        let before = field_count(text.drop_last());
        if !is_whitespace(text.last()) && (text.len() == 1 || is_whitespace(
            text[text.len() - 2],
        )) {
            before + 1
        } else {
            before
        }
    }
}

/// `text` with the seconds `0` in front where it has five fields, and so
/// starts at the minutes; any other text as it is.
pub open spec fn with_seconds(text: Seq<char>) -> Seq<char> {
    if field_count(text) == 5 {
        "0 "@ + text
    } else {
        text
    }
}

/// The deadline `period` after `start`, or `None` where monotonic time
/// cannot count that far.
pub open spec fn deadline_after(start: nat, period: nat) -> Option<nat> {
    if start + period <= u128::MAX {
        Some(start + period)
    } else {
        None
    }
}

/// The first of `deadline`, `deadline + period`, `deadline + 2 * period`,
/// ... that lies strictly after `now`. With a period of zero the deadline
/// stays where it is. `None` where monotonic time cannot count that far.
pub open spec fn next_deadline(deadline: nat, period: nat, now: nat) -> Option<nat> {
    if period == 0 || deadline > now {
        Some(deadline)
    } else {
        let missed = (now - deadline) / (period as int);
        deadline_after((deadline + missed * period) as nat, period)
    }
}

/// The first occurrence of the cron schedule written as `expression`
/// strictly after the second `now`, or `None` where there is none.
pub open spec fn cron_upcoming(expression: Seq<char>, now: int) -> Option<int> {
    if now <= LAST_CRON_SECOND {
        cron_next(expression, now)
    } else {
        None
    }
}

impl ScheduleView {
    /// The interval schedule with the given period, created at `now`: it
    /// fires first one period later.
    pub open spec fn interval(period: nat, now: Reading) -> ScheduleView {
        ScheduleView::Interval {
            period,
            next_run: deadline_after(now.monotonic_nanos as nat, period),
        }
    }

    /// The cron schedule written as `expression`, created at `now`: it fires
    /// first at its first occurrence strictly after `now`.
    pub open spec fn cron(expression: Seq<char>, now: Reading) -> ScheduleView {
        ScheduleView::Cron {
            expression,
            next_run: cron_upcoming(expression, now.unix_secs as int),
        }
    }

    /// Whether the schedule is due at `now`: it has a next fire time, and
    /// the clock it goes by has reached it.
    pub open spec fn due(self, now: Reading) -> bool {
        match self {
            ScheduleView::Cron { next_run, .. } => next_run matches Some(second) && second
                <= now.unix_secs,
            ScheduleView::Interval { next_run, .. } => next_run matches Some(deadline)
                && deadline <= now.monotonic_nanos,
        }
    }

    /// A due schedule after it has fired at `now`.
    pub open spec fn rearmed(self, now: Reading) -> ScheduleView
        recommends
            self.due(now),
    {
        match self {
            ScheduleView::Cron { expression, .. } => ScheduleView::cron(expression, now),
            ScheduleView::Interval { period, next_run } => ScheduleView::Interval {
                period,
                next_run: next_deadline(next_run->0, period, now.monotonic_nanos as nat),
            },
        }
    }

    /// The schedule after an evaluation at `now`: re-armed if it was due,
    /// unchanged otherwise.
    pub open spec fn evaluated(self, now: Reading) -> ScheduleView {
        if self.due(now) {
            self.rearmed(now)
        } else {
            self
        }
    }

    /// Whether the first fire time of the schedule, if it has one, lies
    /// after the reading `now`: strictly after, but for an interval with a
    /// period of zero, which may fire at `now` itself.
    pub open spec fn starts_after(self, now: Reading) -> bool {
        match self {
            ScheduleView::Cron { next_run, .. } => next_run matches Some(second) ==> second
                > now.unix_secs,
            ScheduleView::Interval { period, next_run } => next_run matches Some(deadline)
                ==> deadline >= now.monotonic_nanos && (period > 0 ==> deadline
                > now.monotonic_nanos),
        }
    }

    /// The period of an interval schedule.
    pub open spec fn period(self) -> Option<nat> {
        match self {
            ScheduleView::Cron { .. } => None,
            ScheduleView::Interval { period, .. } => Some(period),
        }
    }

    /// The time at which the schedule fires next, in the unit of its clock.
    pub open spec fn next_run(self) -> Option<int> {
        match self {
            ScheduleView::Cron { next_run, .. } => next_run,
            ScheduleView::Interval { next_run, .. } => match next_run {
                Some(deadline) => Some(deadline as int),
                None => None,
            },
        }
    }
}

/// What parsing `raw` at `now` gives. Text that starts with `@every ` is an
/// interval, and the rest of it must be a duration. Any other text, trimmed,
/// must be a cron expression: as it is written or, where it is none so and
/// has five fields, with the seconds `0` in front.
pub open spec fn parsed(raw: Seq<char>, now: Reading) -> Result<ScheduleView, ParseError> {
    if every_prefix().is_prefix_of(raw) {
        match duration_read(raw.skip(every_prefix().len() as int)) {
            Some(period) => Ok(ScheduleView::interval(period, now)),
            None => Err(ParseError::InvalidDuration),
        }
    } else {
        let expression = trimmed(raw);
        if cron_valid(expression) {
            Ok(ScheduleView::cron(expression, now))
        } else if cron_valid(with_seconds(expression)) {
            Ok(ScheduleView::cron(with_seconds(expression), now))
        } else {
            Err(ParseError::InvalidCronExpression)
        }
    }
}

/// The outcome of a parse as a mathematical value.
pub open spec fn outcome_of(result: Result<Schedule, ParseError>) -> Result<
    ScheduleView,
    ParseError,
> {
    match result {
        Ok(schedule) => Ok(schedule@),
        Err(error) => Err(error),
    }
}

/// Calls `cron::Schedule::from_str` on `expression`, through `str::parse`,
/// and drops the schedule. The contract names the outcome: the parse
/// succeeds exactly where `cron_valid(expression)`.
#[verifier::external_body]
fn parse_cron(expression: &str) -> (parsed: Result<(), cron::error::Error>)
    ensures
        parsed is Ok <==> cron_valid(expression@),
{
    match expression.parse::<cron::Schedule>() {
        Ok(_) => Ok(()),
        Err(error) => Err(error),
    }
}

/// Calls `cron::Schedule::after` on the schedule parsed from `expression`
/// and takes the first item of the iterator: the first occurrence after the
/// second `after`, which goes in as a `chrono::DateTime<Utc>` and comes back
/// as its `timestamp`. The contract names the result
/// `cron_next(expression, after)` and claims of it that it lies strictly
/// after `after`: the search of the cron crate starts at the second that
/// follows `after` and only goes forward. Seconds beyond `LAST_CRON_SECOND`
/// are left out, so that this following second is a date `chrono` can hold.
#[verifier::external_body]
fn cron_next_after(expression: &str, after: i64) -> (next: Option<i64>)
    requires
        after <= LAST_CRON_SECOND,
    ensures
        second_of(next) == cron_next(expression@, after as int),
        next matches Some(second) ==> second > after,
{
    let schedule = expression.parse::<cron::Schedule>().ok()?;
    let start = chrono::DateTime::<chrono::Utc>::from_timestamp(after, 0)?;
    match schedule.after(&start).next() {
        Some(time) => Some(time.timestamp()),
        None => None,
    }
}

/// The number of fields of `text`.
pub fn count_fields(text: &str) -> (count: usize)
    ensures
        count == field_count(text@),
{
    let len = text.unicode_len();
    let mut count: usize = 0;
    let mut i: usize = 0;
    let mut after_space = true;
    for c in iter: text.chars()
        invariant
            iter.seq() == text@,
            len == text@.len(),
            i == iter.index(),
            count <= i,
            count == field_count(text@.take(i as int)),
            after_space == (i == 0 || is_whitespace(text@[i - 1])),
    {
        proof {
            let upto = text@.take(i + 1);
            assert(upto.drop_last() =~= text@.take(i as int));
            assert(upto.last() == text@[i as int]);
            if i > 0 {
                assert(upto[upto.len() - 2] == text@[i - 1]);
            }
        }
        let space = char_is_whitespace(c);
        if !space && after_space {
            count = count + 1;
        }
        after_space = space;
        i = i + 1;
    }
    assert(text@.take(text@.len() as int) =~= text@);
    count
}

/// `text` with the seconds `0` in front where it has five fields, else as
/// it is.
pub fn six_field_expression(text: &str) -> (expression: String)
    ensures
        expression@ == with_seconds(text@),
{
    if count_fields(text) == 5 {
        let mut expression = String::from_str("0 ");
        expression.append(text);
        expression
    } else {
        String::from_str(text)
    }
}

impl Schedule {
    /// An interval schedule with the given period in nanoseconds, created at
    /// `now`.
    pub fn interval(period: u128, now: &Reading) -> (schedule: Schedule)
        ensures
            schedule@ == ScheduleView::interval(period as nat, *now),
            schedule@.starts_after(*now),
    {
        Schedule::Interval { period, next_run: now.monotonic_nanos.checked_add(period) }
    }

    /// The cron schedule written as `expression`, created at `now`.
    pub fn cron(expression: &str, now: &Reading) -> (schedule: Schedule)
        ensures
            schedule@ == ScheduleView::cron(expression@, *now),
            schedule@.starts_after(*now),
    {
        Schedule::Cron {
            expression: String::from_str(expression),
            next_run: Self::upcoming(expression, now.unix_secs),
        }
    }

    /// The first occurrence of `expression` strictly after the second
    /// `now`.
    fn upcoming(expression: &str, now: i64) -> (next: Option<i64>)
        ensures
            second_of(next) == cron_upcoming(expression@, now as int),
            next matches Some(second) ==> second > now,
    {
        if now <= LAST_CRON_SECOND {
            cron_next_after(expression, now)
        } else {
            None
        }
    }

    /// Parses `raw` at the reading `now`.
    ///
    /// Text that starts with `@every ` is an interval: the rest must be a
    /// duration, else the error is `InvalidDuration`. Any other text is
    /// trimmed and must be a cron expression, else the error is
    /// `InvalidCronExpression`. A text of five fields that is no expression
    /// as it is written starts at the minutes and is tried, and kept, with
    /// the seconds `0` in front. An interval fires first one period after
    /// `now`, a cron schedule at its first occurrence strictly after `now`.
    pub fn from_str_at(raw: &str, now: &Reading) -> (result: Result<Schedule, ParseError>)
        ensures
            outcome_of(result) == parsed(raw@, *now),
            result matches Ok(schedule) ==> schedule@.starts_after(*now),
    {
        match strip_prefix(raw, "@every ") {
            Some(text) => match read_duration(text) {
                Some(period) => Ok(Schedule::interval(period, now)),
                None => Err(ParseError::InvalidDuration),
            },
            None => {
                let expression = trim(raw);
                match parse_cron(expression) {
                    Ok(_) => Ok(Schedule::cron(expression, now)),
                    Err(_) => {
                        if count_fields(expression) != 5 {
                            return Err(ParseError::InvalidCronExpression);
                        }
                        let with_seconds = six_field_expression(expression);
                        match parse_cron(with_seconds.as_str()) {
                            Ok(_) => Ok(Schedule::cron(with_seconds.as_str(), now)),
                            Err(_) => Err(ParseError::InvalidCronExpression),
                        }
                    },
                }
            },
        }
    }

    /// Parses `raw` at the present reading of `clock`.
    pub fn from_str(raw: &str, clock: &Clock) -> (result: Result<Schedule, ParseError>)
        ensures
            exists|now: Reading|
                {
                    &&& outcome_of(result) == #[trigger] parsed(raw@, now)
                    &&& result matches Ok(schedule) ==> schedule@.starts_after(now)
                },
    {
        let now = clock.now();
        Self::from_str_at(raw, &now)
    }

    /// Whether the schedule is due at `now`.
    pub fn is_due(&self, now: &Reading) -> (due: bool)
        ensures
            due == self@.due(*now),
    {
        match self {
            Schedule::Cron { next_run, .. } => match next_run {
                Some(second) => *second <= now.unix_secs,
                None => false,
            },
            Schedule::Interval { next_run, .. } => match next_run {
                Some(deadline) => *deadline <= now.monotonic_nanos,
                None => false,
            },
        }
    }

    /// The first deadline of the series `deadline`, `deadline + period`, ...
    /// that lies strictly after `now`; with a period of zero, `deadline`
    /// itself. `None` where it is beyond what monotonic time can count.
    pub fn following_deadline(deadline: u128, period: u128, now: u128) -> (next: Option<u128>)
        ensures
            nanos_of(next) == next_deadline(deadline as nat, period as nat, now as nat),
            next matches Some(then) ==> deadline <= then,
            period > 0 ==> (next matches Some(then) ==> now < then && (deadline <= now ==> then
                <= now + period)),
    {
        if period == 0 || deadline > now {
            return Some(deadline);
        }
        let late = (now - deadline) % period;
        proof {
            let elapsed = (now - deadline) as int;
            let p = period as int;
            assert(elapsed == (elapsed / p) * p + elapsed % p) by (nonlinear_arith)
                requires
                    p > 0,
            ;
            assert(0 <= elapsed % p < p) by (nonlinear_arith)
                requires
                    p > 0,
            ;
        }
        (now - late).checked_add(period)
    }

    /// Evaluates the schedule at the reading `now`. Returns whether it was
    /// due. A due schedule is re-armed: a cron schedule for its first
    /// occurrence strictly after `now`, an interval for the first deadline of
    /// its series strictly after `now`. So the next fire time never moves
    /// back, and a schedule that has fired is not due again at the same
    /// reading, but for an interval with a period of zero, which is due at
    /// every evaluation from its deadline on.
    pub fn should_run_at(&mut self, now: &Reading) -> (fired: bool)
        ensures
            fired == old(self)@.due(*now),
            final(self)@ == old(self)@.evaluated(*now),
            fired && final(self)@.period() != Some(0nat) ==> !final(self)@.due(*now),
            final(self)@.next_run() matches Some(next) ==> old(self)@.next_run() is Some && old(
                self,
            )@.next_run()->0 <= next,
    {
        match self {
            Schedule::Cron { expression, next_run } => {
                match *next_run {
                    Some(second) => {
                        if second <= now.unix_secs {
                            *next_run = Self::upcoming(expression.as_str(), now.unix_secs);
                            true
                        } else {
                            false
                        }
                    },
                    None => false,
                }
            },
            Schedule::Interval { period, next_run } => {
                match *next_run {
                    Some(deadline) => {
                        if deadline <= now.monotonic_nanos {
                            *next_run = Self::following_deadline(
                                deadline,
                                *period,
                                now.monotonic_nanos,
                            );
                            true
                        } else {
                            false
                        }
                    },
                    None => false,
                }
            },
        }
    }

    /// Evaluates the schedule at the present reading of `clock`.
    pub fn should_run(&mut self, clock: &Clock) -> (fired: bool)
        ensures
            exists|now: Reading|
                {
                    &&& fired == old(self)@.due(now)
                    &&& final(self)@ == #[trigger] old(self)@.evaluated(now)
                    &&& fired && final(self)@.period() != Some(0nat) ==> !final(self)@.due(now)
                },
            final(self)@.next_run() matches Some(next) ==> old(self)@.next_run() is Some && old(
                self,
            )@.next_run()->0 <= next,
    {
        let now = clock.now();
        self.should_run_at(&now)
    }
}

/// An interval with a period above zero is not due before one period has
/// passed since it was created, and is due from then on until it is
/// evaluated.
pub proof fn lemma_interval_first_fire(period: nat, created: Reading, now: Reading)
    requires
        period > 0,
        created.monotonic_nanos + period <= u128::MAX,
    ensures
        ScheduleView::interval(period, created).due(now) <==> now.monotonic_nanos
            >= created.monotonic_nanos + period,
{
}

/// An interval with a period above zero that fires at `now` moves its
/// deadline by a whole number of periods, at least one, to a time that is
/// strictly after `now` and at most one period after it; it is then not due
/// at `now` any more.
pub proof fn lemma_interval_fires_once(period: nat, deadline: nat, now: Reading)
    requires
        period > 0,
        deadline <= now.monotonic_nanos,
    ensures
        ({
            let before = ScheduleView::Interval { period, next_run: Some(deadline) };
            let after = before.evaluated(now);
            &&& before.due(now)
            &&& !after.due(now)
            &&& after.next_run() matches Some(next) ==> {
                &&& now.monotonic_nanos < next <= now.monotonic_nanos + period
                &&& exists|steps: nat| steps >= 1 && next == deadline + #[trigger] (steps * period)
            }
        }),
{
    let elapsed = now.monotonic_nanos - deadline;
    let p = period as int;
    let missed = elapsed / p;
    assert(elapsed == missed * p + elapsed % p && 0 <= elapsed % p < p && missed >= 0)
        by (nonlinear_arith)
        requires
            p > 0,
            elapsed >= 0,
            missed == elapsed / p,
    ;
    let steps = (missed + 1) as nat;
    assert(steps * period == missed * p + p) by (nonlinear_arith)
        requires
            steps == missed + 1,
            p == period,
    ;
    let after = ScheduleView::Interval { period, next_run: Some(deadline) }.evaluated(now);
    if after.next_run() is Some {
        assert(after.next_run()->0 == deadline + steps * period);
    }
}

} // verus!
