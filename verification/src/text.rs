//! String helpers that the schedule grammar needs: removing a literal
//! prefix and trimming surrounding white space.

use vstd::prelude::*;
use vstd::string::*;

verus! {

/// Whether `c` has the Unicode property `White_Space`.
pub open spec fn is_whitespace(c: char) -> bool {
    let code = c as u32;
    ||| 0x09 <= code <= 0x0D
    ||| code == 0x20
    ||| code == 0x85
    ||| code == 0xA0
    ||| code == 0x1680
    ||| 0x2000 <= code <= 0x200A
    ||| code == 0x2028
    ||| code == 0x2029
    ||| code == 0x202F
    ||| code == 0x205F
    ||| code == 0x3000
}

/// `text` without its leading white space.
pub open spec fn trimmed_start(text: Seq<char>) -> Seq<char>
    decreases text.len(),
{
    if text.len() > 0 && is_whitespace(text[0]) {
        trimmed_start(text.drop_first())
    } else {
        text
    }
}

/// `text` without its trailing white space.
pub open spec fn trimmed_end(text: Seq<char>) -> Seq<char>
    decreases text.len(),
{
    if text.len() > 0 && is_whitespace(text.last()) {
        trimmed_end(text.drop_last())
    } else {
        text
    }
}

/// `text` without leading and trailing white space.
pub open spec fn trimmed(text: Seq<char>) -> Seq<char> {
    trimmed_end(trimmed_start(text))
}

/// Whether `c` has the Unicode property `White_Space`.
pub fn char_is_whitespace(c: char) -> (white: bool)
    ensures
        white == is_whitespace(c),
{
    let code: u32 = c as u32;
    (0x09 <= code && code <= 0x0D) || code == 0x20 || code == 0x85 || code == 0xA0 || code
        == 0x1680 || (0x2000 <= code && code <= 0x200A) || code == 0x2028 || code == 0x2029
        || code == 0x202F || code == 0x205F || code == 0x3000
}

/// What is left of `text` behind `prefix`, or `None` where `text` does not
/// start with `prefix`.
pub fn strip_prefix<'a>(text: &'a str, prefix: &str) -> (rest: Option<&'a str>)
    ensures
        rest is Some <==> prefix@.is_prefix_of(text@),
        rest matches Some(tail) ==> tail@ == text@.skip(prefix@.len() as int),
{
    let text_len = text.unicode_len();
    let prefix_len = prefix.unicode_len();
    if text_len < prefix_len {
        return None;
    }
    let mut i: usize = 0;
    while i < prefix_len
        invariant
            i <= prefix_len <= text_len,
            prefix_len == prefix@.len(),
            text_len == text@.len(),
            forall|k: int| 0 <= k < i ==> text@[k] == prefix@[k],
        decreases prefix_len - i,
    {
        if text.get_char(i) != prefix.get_char(i) {
            assert(text@.subrange(0, prefix@.len() as int)[i as int] != prefix@[i as int]);
            return None;
        }
        i = i + 1;
    }
    assert(text@.subrange(0, prefix@.len() as int) =~= prefix@);
    Some(text.substring_char(prefix_len, text_len))
}

/// Dropping white space from the front of the rest leaves what dropping it
/// from the front of the whole leaves, as long as only white space was
/// skipped.
proof fn lemma_trimmed_start_skip(text: Seq<char>, skipped: int)
    requires
        0 <= skipped <= text.len(),
        forall|k: int| 0 <= k < skipped ==> is_whitespace(text[k]),
    ensures
        trimmed_start(text) == trimmed_start(text.skip(skipped)),
    decreases skipped,
{
    if skipped > 0 {
        lemma_trimmed_start_skip(text.drop_first(), skipped - 1);
        assert(text.drop_first().skip(skipped - 1) =~= text.skip(skipped));
    } else {
        assert(text.skip(0) =~= text);
    }
}

/// The same from the back.
proof fn lemma_trimmed_end_take(text: Seq<char>, kept: int)
    requires
        0 <= kept <= text.len(),
        forall|k: int| kept <= k < text.len() ==> is_whitespace(text[k]),
    ensures
        trimmed_end(text) == trimmed_end(text.take(kept)),
    decreases text.len() - kept,
{
    if kept < text.len() {
        lemma_trimmed_end_take(text.drop_last(), kept);
        assert(text.drop_last().take(kept) =~= text.take(kept));
    } else {
        assert(text.take(kept) =~= text);
    }
}

/// `text` without leading and trailing white space.
pub fn trim(text: &str) -> (inner: &str)
    ensures
        inner@ == trimmed(text@),
{
    let len = text.unicode_len();
    let mut start: usize = 0;
    let mut end: usize = 0;
    let mut i: usize = 0;
    for c in iter: text.chars()
        invariant
            iter.seq() == text@,
            len == text@.len(),
            i == iter.index(),
            start <= end <= i,
            forall|k: int| 0 <= k < start ==> is_whitespace(text@[k]),
            forall|k: int| end <= k < i ==> is_whitespace(text@[k]),
            start < end ==> !is_whitespace(text@[start as int]) && !is_whitespace(
                text@[end - 1],
            ),
            start == end ==> start == i,
    {
        if char_is_whitespace(c) {
            if start == end {
                start = i + 1;
                end = i + 1;
            }
        } else {
            end = i + 1;
        }
        i = i + 1;
    }
    proof {
        let front = text@.skip(start as int);
        lemma_trimmed_start_skip(text@, start as int);
        assert(trimmed_start(front) == front) by {
            if front.len() > 0 {
                assert(front[0] == text@[start as int]);
            }
        }
        lemma_trimmed_end_take(front, end - start);
        let inner = front.take(end - start);
        assert(trimmed_end(inner) == inner) by {
            if inner.len() > 0 {
                assert(inner.last() == text@[end - 1]);
            }
        }
        assert(inner =~= text@.subrange(start as int, end as int));
    }
    text.substring_char(start, end)
}

} // verus!
