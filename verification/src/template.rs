//! Text templates: a page with a placeholder in it, and the page that results
//! when a value takes the placeholder's place.

use vstd::prelude::*;
use vstd::string::*;
use crate::text::chars_of;

verus! {

/// Whether `text` begins with `pattern`.
pub open spec fn starts_with(text: Seq<char>, pattern: Seq<char>) -> bool {
    pattern.len() <= text.len() && text.take(pattern.len() as int) == pattern
}

/// `text` with every occurrence of `pattern` replaced by `replacement`.
///
/// Occurrences are taken from the left and do not overlap: after one has
/// been replaced the search goes on behind it. An empty pattern occurs
/// nowhere.
pub open spec fn replace_all(text: Seq<char>, pattern: Seq<char>, replacement: Seq<char>) -> Seq<
    char,
>
    decreases text.len(),
{
    if text.len() == 0 {
        text
    } else if pattern.len() > 0 && starts_with(text, pattern) {
        replacement + replace_all(text.skip(pattern.len() as int), pattern, replacement)
    } else {
        seq![text[0]] + replace_all(text.skip(1), pattern, replacement)
    }
}

/// Whether `pattern` occurs in `text` at some position before `end`.
pub open spec fn occurs_before(text: Seq<char>, pattern: Seq<char>, end: int) -> bool {
    exists|at: int| 0 <= at < end && at <= text.len() && #[trigger] starts_with(text.skip(at), pattern)
}

/// A text in which the pattern occurs nowhere is left as it is.
pub proof fn lemma_replace_all_without_occurrence(
    text: Seq<char>,
    pattern: Seq<char>,
    replacement: Seq<char>,
)
    requires
        !occurs_before(text, pattern, text.len() as int),
    ensures
        replace_all(text, pattern, replacement) == text,
    decreases text.len(),
{
    if text.len() > 0 {
        assert(text.skip(0) =~= text);
        assert(!starts_with(text.skip(0), pattern));
        let rest = text.skip(1);
        assert forall|at: int| 0 <= at < rest.len() implies !#[trigger] starts_with(
            rest.skip(at),
            pattern,
        ) by {
            assert(rest.skip(at) =~= text.skip(at + 1));
            assert(!starts_with(text.skip(at + 1), pattern));
        }
        lemma_replace_all_without_occurrence(rest, pattern, replacement);
        assert(seq![text[0]] + rest =~= text);
    }
}

/// A text that holds the pattern once, between `before` and `after`, becomes
/// `before`, the replacement and `after`.
pub proof fn lemma_replace_all_single_occurrence(
    before: Seq<char>,
    after: Seq<char>,
    pattern: Seq<char>,
    replacement: Seq<char>,
)
    requires
        pattern.len() > 0,
        !occurs_before(before + pattern + after, pattern, before.len() as int),
        !occurs_before(after, pattern, after.len() as int),
    ensures
        replace_all(before + pattern + after, pattern, replacement) == before + replacement
            + after,
    decreases before.len(),
{
    let text = before + pattern + after;
    if before.len() == 0 {
        assert(text.take(pattern.len() as int) =~= pattern);
        assert(text.skip(pattern.len() as int) =~= after);
        lemma_replace_all_without_occurrence(after, pattern, replacement);
        assert(replacement + after =~= before + replacement + after);
    } else {
        assert(text.skip(0) =~= text);
        assert(!starts_with(text.skip(0), pattern));
        let shorter = before.skip(1);
        assert(text.skip(1) =~= shorter + pattern + after);
        assert forall|at: int| 0 <= at < shorter.len() implies !#[trigger] starts_with(
            (shorter + pattern + after).skip(at),
            pattern,
        ) by {
            assert((shorter + pattern + after).skip(at) =~= text.skip(at + 1));
            assert(!starts_with(text.skip(at + 1), pattern));
        }
        lemma_replace_all_single_occurrence(shorter, after, pattern, replacement);
        assert(seq![text[0]] + (shorter + replacement + after) =~= before + replacement + after);
    }
}

/// Whether `pattern` stands in `text` at position `at`.
fn matches_at(text: &Vec<char>, at: usize, pattern: &Vec<char>) -> (found: bool)
    requires
        at <= text.len(),
    ensures
        found == starts_with(text@.skip(at as int), pattern@),
{
    let m: usize = pattern.len();
    if m > text.len() - at {
        return false;
    }
    let ghost tail = text@.skip(at as int);
    let mut j: usize = 0;
    while j < m
        invariant
            at + m <= text.len(),
            m == pattern.len(),
            j <= m,
            tail == text@.skip(at as int),
            forall|k: int| 0 <= k < j ==> tail[k] == pattern[k],
        decreases m - j,
    {
        if text[at + j] != pattern[j] {
            assert(tail.take(m as int)[j as int] != pattern@[j as int]);
            return false;
        }
        j = j + 1;
    }
    assert(tail.take(m as int) =~= pattern@);
    true
}

/// Replaces every occurrence of `placeholder` in `template` by `value`.
pub fn substitute(template: &str, placeholder: &str, value: &str) -> (page: String)
    ensures
        page@ == replace_all(template@, placeholder@, value@),
{
    let text: Vec<char> = chars_of(template);
    let pattern: Vec<char> = chars_of(placeholder);
    let n: usize = text.len();
    let m: usize = pattern.len();
    let mut page = String::new();
    let mut copied: usize = 0;
    let mut at: usize = 0;
    assert(text@.skip(0) =~= text@);
    while at < n
        invariant
            text@ == template@,
            pattern@ == placeholder@,
            n == text.len(),
            m == pattern.len(),
            copied <= at <= n,
            replace_all(text@, pattern@, value@) == page@ + text@.subrange(
                copied as int,
                at as int,
            ) + replace_all(text@.skip(at as int), pattern@, value@),
        decreases n - at,
    {
        let ghost tail = text@.skip(at as int);
        if m > 0 && matches_at(&text, at, &pattern) {
            page.append(template.substring_char(copied, at));
            page.append(value);
            assert(tail.skip(m as int) =~= text@.skip(at + m));
            at = at + m;
            copied = at;
            assert(text@.subrange(copied as int, at as int) =~= Seq::<char>::empty());
        } else {
            assert(tail.skip(1) =~= text@.skip(at + 1));
            assert(text@.subrange(copied as int, at as int) + seq![tail[0]] =~= text@.subrange(
                copied as int,
                at + 1,
            ));
            at = at + 1;
        }
    }
    page.append(template.substring_char(copied, n));
    assert(text@.skip(n as int) =~= Seq::<char>::empty());
    page
}

} // verus!
