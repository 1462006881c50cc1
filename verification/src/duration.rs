//! Durations written as text: `1h 30m`, `500ms`, `2hours 37min`.
//!
//! A text is a row of spans, each a number with its unit. The text is
//! parted where a span begins, each span is read on its own, and the
//! durations of the spans are added up. Read on its own, no span is large
//! enough to make the duration parser overflow; whether the sum still is a
//! duration is decided here, and exactly: spans add up to a duration
//! wherever their sum is no longer than the longest one.

use vstd::prelude::*;
use vstd::string::*;
use crate::text::char_is_whitespace;
use crate::text::is_whitespace;

verus! {

/// `humantime::DurationError`, the reason a duration text was refused.
#[verifier::external_type_specification]
#[verifier::external_body]
pub struct ExDurationError(humantime::DurationError);

/// The duration, in nanoseconds, that `humantime::parse_duration` reads
/// from `text`; `None` where it refuses the text.
pub uninterp spec fn duration_of(text: Seq<char>) -> Option<nat>;

/// The longest duration there is, in nanoseconds: `u64::MAX` seconds and
/// one nanosecond less than a second more.
pub const MAX_DURATION_NANOS: u128 = 18_446_744_073_709_551_615_999_999_999;

/// Whether `c` is a decimal digit.
pub open spec fn is_digit(c: char) -> bool {
    '0' <= c <= '9'
}

/// Whether the last character before index `at` that is no white space
/// ends a unit: it is there, and is neither a digit nor the point of a
/// fraction.
pub open spec fn behind_unit(text: Seq<char>, at: int) -> bool
    decreases at,
{
    if at <= 0 || at > text.len() {
        false
    } else if is_whitespace(text[at - 1]) {
        behind_unit(text, at - 1)
    } else {
        !is_digit(text[at - 1]) && text[at - 1] != '.'
    }
}

/// Whether a span begins at index `at`, behind another one: a digit stands
/// there, and what stands before it ends a unit.
pub open spec fn starts_span(text: Seq<char>, at: int) -> bool {
    0 < at < text.len() && is_digit(text[at]) && behind_unit(text, at)
}

/// Whether `text` is a single span: no span begins behind another one.
pub open spec fn single_span(text: Seq<char>) -> bool {
    forall|at: int| !#[trigger] starts_span(text, at)
}

/// Where the spans of `text` begin, as far as they begin before index
/// `upto`: at `0`, and wherever a span begins behind another one.
pub open spec fn span_starts(text: Seq<char>, upto: int) -> Seq<int>
    decreases upto,
{
    if upto <= 0 {
        seq![0int]
    } else if starts_span(text, upto - 1) {
        span_starts(text, upto - 1).push(upto - 1)
    } else {
        span_starts(text, upto - 1)
    }
}

/// Where span `k` of `text` ends: where the next one begins, or with the
/// text.
pub open spec fn span_end(text: Seq<char>, starts: Seq<int>, k: int) -> int {
    if k + 1 < starts.len() {
        starts[k + 1]
    } else {
        text.len() as int
    }
}

/// Span `k` of `text` as it is handed to the duration parser: the first as
/// it stands, each further one behind a space, as it stood behind a unit.
pub open spec fn span_text(text: Seq<char>, starts: Seq<int>, k: int) -> Seq<char> {
    let span = text.subrange(starts[k], span_end(text, starts, k));
    if k == 0 {
        span
    } else {
        " "@ + span
    }
}

/// The sum of the durations of the first `count` spans of `text`, or `None`
/// where one of them is no duration.
pub open spec fn spans_total(text: Seq<char>, starts: Seq<int>, count: int) -> Option<nat>
    decreases count,
{
    if count <= 0 {
        Some(0nat)
    } else {
        match (
            spans_total(text, starts, count - 1),
            duration_of(span_text(text, starts, count - 1)),
        ) {
            (Some(before), Some(span)) => Some(before + span),
            _ => None,
        }
    }
}

/// The duration that `text` is read as, in nanoseconds: the sum of its
/// spans. `None` where a span is no duration, or where the spans add up to
/// more than a duration holds.
pub open spec fn duration_read(text: Seq<char>) -> Option<nat> {
    let starts = span_starts(text, text.len() as int);
    match spans_total(text, starts, starts.len() as int) {
        Some(total) => if total <= MAX_DURATION_NANOS {
            Some(total)
        } else {
            None
        },
        None => None,
    }
}

/// Calls `humantime::parse_duration` on `text` and gives the duration in
/// nanoseconds. The contract names the result `duration_of(text)` and
/// claims nothing more of it.
///
/// Only a single span is handed over. The parser panics in one place:
/// where the whole seconds it has added up stand at `u64::MAX` and the
/// nanoseconds come to exactly one second more. It adds once for the
/// number of a span and once more for its fraction, and begins a second
/// span only at a digit behind a unit. The number is added to zero and
/// gives whole seconds or nanoseconds, never both. The fraction stays below
/// one unit: behind microseconds or milliseconds it cannot fill the second
/// up, behind seconds no nanoseconds were there before it, of a minute it
/// is never one second exactly, and of a larger unit it has no nanoseconds.
#[verifier::external_body]
fn parse_duration(text: &str) -> (parsed: Result<u128, humantime::DurationError>)
    requires
        single_span(text@),
    ensures
        match parsed {
            Ok(nanos) => duration_of(text@) == Some(nanos as nat),
            Err(_) => duration_of(text@) is None,
        },
{
    match humantime::parse_duration(text) {
        Ok(period) => Ok(period.as_nanos()),
        Err(error) => Err(error),
    }
}

/// What `span_starts` holds: the starts are in rising order from `0`, each
/// but the first is where a span begins, and none is missing.
pub proof fn lemma_span_starts(text: Seq<char>, upto: int)
    ensures
        span_starts(text, upto).len() >= 1,
        span_starts(text, upto)[0] == 0,
        forall|k: int|
            1 <= k < span_starts(text, upto).len() ==> 0 < #[trigger] span_starts(text, upto)[k]
                < upto && starts_span(text, span_starts(text, upto)[k]),
        forall|j: int, k: int|
            0 <= j < k < span_starts(text, upto).len() ==> #[trigger] span_starts(text, upto)[j]
                < #[trigger] span_starts(text, upto)[k],
        forall|at: int|
            0 < at < upto && #[trigger] starts_span(text, at) ==> span_starts(
                text,
                upto,
            ).contains(at),
    decreases upto,
{
    if upto > 0 {
        lemma_span_starts(text, upto - 1);
        let before = span_starts(text, upto - 1);
        let starts = span_starts(text, upto);
        if starts_span(text, upto - 1) {
            assert(starts[starts.len() - 1] == upto - 1);
            assert forall|at: int| 0 < at < upto && #[trigger] starts_span(
                text,
                at,
            ) implies starts.contains(at) by {
                if at < upto - 1 {
                    let k = choose|k: int| 0 <= k < before.len() && before[k] == at;
                    assert(starts[k] == at);
                }
            }
        }
    }
}

/// What stands before an index is the same in a text and in its front part.
proof fn lemma_behind_unit_front(text: Seq<char>, end: int, at: int)
    requires
        0 <= at <= end <= text.len(),
    ensures
        behind_unit(text.subrange(0, end), at) == behind_unit(text, at),
    decreases at,
{
    if at > 0 {
        lemma_behind_unit_front(text, end, at - 1);
    }
}

/// What stands before an index is the same in a text and in one of its
/// spans behind a space, from the second character of the span on.
proof fn lemma_behind_unit_shifted(text: Seq<char>, from: int, end: int, at: int)
    requires
        0 <= from < end <= text.len(),
        is_digit(text[from]),
        2 <= at <= end - from + 1,
    ensures
        behind_unit(" "@ + text.subrange(from, end), at) == behind_unit(text, from + at - 1),
    decreases at,
{
    reveal_strlit(" ");
    let shifted = " "@ + text.subrange(from, end);
    assert(shifted[at - 1] == text[from + at - 2]);
    if at > 2 {
        lemma_behind_unit_shifted(text, from, end, at - 1);
    }
}

/// Each span of a text, as it is handed to the duration parser, is a single
/// span.
pub proof fn lemma_span_is_single(text: Seq<char>, k: int)
    requires
        0 <= k < span_starts(text, text.len() as int).len(),
    ensures
        single_span(span_text(text, span_starts(text, text.len() as int), k)),
        0 <= span_starts(text, text.len() as int)[k] <= span_end(
            text,
            span_starts(text, text.len() as int),
            k,
        ) <= text.len(),
{
    let starts = span_starts(text, text.len() as int);
    lemma_span_starts(text, text.len() as int);
    let from = starts[k];
    let end = span_end(text, starts, k);
    let handed = span_text(text, starts, k);
    if k + 1 < starts.len() {
        assert(starts[k] < starts[k + 1]);
    }
    assert forall|at: int| !#[trigger] starts_span(handed, at) by {
        if starts_span(handed, at) {
            let origin = if k == 0 {
                at
            } else {
                from + at - 1
            };
            if k == 0 {
                lemma_behind_unit_front(text, end, at);
                assert(handed[at] == text[at]);
            } else {
                reveal_strlit(" ");
                assert(is_whitespace(' '));
                assert(handed[0] == ' ');
                assert(at != 1) by {
                    if at == 1 {
                        assert(behind_unit(handed, 1) == behind_unit(handed, 0));
                    }
                }
                lemma_behind_unit_shifted(text, from, end, at);
                assert(handed[at] == text[origin]);
            }
            assert(starts_span(text, origin));
            assert(from < origin < end);
            let m = choose|m: int| 0 <= m < starts.len() && starts[m] == origin;
            if m <= k {
                assert(m == k || starts[m] < starts[k]);
            } else {
                assert(m == k + 1 || starts[k + 1] < starts[m]);
            }
        }
    }
}

/// The sum over more spans is there only where the sum over fewer is, and
/// is no smaller.
pub proof fn lemma_spans_total_grows(text: Seq<char>, starts: Seq<int>, fewer: int, more: int)
    requires
        0 <= fewer <= more,
    ensures
        spans_total(text, starts, more) matches Some(total) ==> spans_total(
            text,
            starts,
            fewer,
        ) matches Some(part) && part <= total,
    decreases more - fewer,
{
    if fewer < more {
        lemma_spans_total_grows(text, starts, fewer, more - 1);
    }
}

/// Where the spans of `text` begin.
pub fn find_spans(text: &str) -> (starts: Vec<usize>)
    ensures
        starts@.map_values(|start: usize| start as int) == span_starts(
            text@,
            text@.len() as int,
        ),
{
    let len = text.unicode_len();
    let mut starts: Vec<usize> = Vec::new();
    starts.push(0);
    let mut i: usize = 0;
    let mut unit_before = false;
    assert(starts@.map_values(|start: usize| start as int) =~= span_starts(text@, 0));
    for c in iter: text.chars()
        invariant
            iter.seq() == text@,
            len == text@.len(),
            i == iter.index(),
            unit_before == behind_unit(text@, i as int),
            starts@.map_values(|start: usize| start as int) == span_starts(text@, i as int),
    {
        let digit = '0' <= c && c <= '9';
        if digit && unit_before && i > 0 {
            let ghost before = starts@.map_values(|start: usize| start as int);
            starts.push(i);
            assert(starts@.map_values(|start: usize| start as int) =~= before.push(i as int));
        }
        if !char_is_whitespace(c) {
            unit_before = !digit && c != '.';
        }
        i = i + 1;
    }
    starts
}

/// Reads `text` as a duration, in nanoseconds: parts it into its spans,
/// reads each with the duration parser and adds them up. `None` where a
/// span is no duration or where the sum is more than a duration holds.
pub fn read_duration(text: &str) -> (period: Option<u128>)
    ensures
        period matches Some(nanos) ==> duration_read(text@) == Some(nanos as nat),
        period is None ==> duration_read(text@) is None,
{
    let len = text.unicode_len();
    let starts = find_spans(text);
    let ghost cuts = span_starts(text@, text@.len() as int);
    let mut total: u128 = 0;
    let mut k: usize = 0;
    proof {
        lemma_span_starts(text@, text@.len() as int);
    }
    while k < starts.len()
        invariant
            k <= starts.len(),
            len == text@.len(),
            cuts == span_starts(text@, text@.len() as int),
            starts@.map_values(|start: usize| start as int) == cuts,
            spans_total(text@, cuts, k as int) == Some(total as nat),
            total <= MAX_DURATION_NANOS,
        decreases starts.len() - k,
    {
        proof {
            lemma_span_is_single(text@, k as int);
            lemma_spans_total_grows(text@, cuts, k + 1, cuts.len() as int);
            assert(cuts[k as int] == starts[k as int]);
            if k + 1 < starts.len() {
                assert(cuts[k + 1] == starts[k + 1]);
            }
        }
        let from = starts[k];
        let to = if k + 1 < starts.len() {
            starts[k + 1]
        } else {
            len
        };
        let span = text.substring_char(from, to);
        let parsed = if k == 0 {
            parse_duration(span)
        } else {
            let mut handed = String::from_str(" ");
            handed.append(span);
            parse_duration(handed.as_str())
        };
        match parsed {
            Ok(nanos) => {
                match total.checked_add(nanos) {
                    Some(sum) => {
                        if sum > MAX_DURATION_NANOS {
                            return None;
                        }
                        total = sum;
                    },
                    None => {
                        return None;
                    },
                }
            },
            Err(_) => {
                return None;
            },
        }
        k = k + 1;
    }
    Some(total)
}

} // verus!
