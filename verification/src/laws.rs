//! What holds of the scanner on every text: which texts it leaves as they are,
//! and what it makes of a well-formed span.

use crate::scanner::{
    close_tag, closing_at, is_delimiter, lemma_plain_len, open_tag, opens_span, plain_len,
    rewritten, rewritten_from,
};
use vstd::prelude::*;

verus! {

/// No `=` stands in `s`.
pub open spec fn free_of_equals(s: Seq<char>) -> bool {
    forall|k: int| 0 <= k < s.len() ==> s[k] != '='
}

/// A run of `n` signs `=`.
pub open spec fn equals_run(n: nat) -> Seq<char> {
    Seq::new(n, |k: int| '=')
}

/// The two texts do not both have a `=` where they meet.
pub open spec fn clean_joint(left: Seq<char>, right: Seq<char>) -> bool {
    left.len() == 0 || right.len() == 0 || left.last() != '=' || right[0] != '='
}

/// A stretch of text in which no span opens is copied character by character.
pub proof fn lemma_stretch_copied(s: Seq<char>, i: int, j: int)
    requires
        0 <= i <= j <= s.len(),
        forall|k: int| i <= k < j ==> !#[trigger] opens_span(s, k),
    ensures
        rewritten_from(s, i) == s.subrange(i, j) + rewritten_from(s, j),
    decreases j - i,
{
    if i < j {
        lemma_stretch_copied(s, i + 1, j);
        assert(!opens_span(s, i));
        assert(seq![s[i]] + s.subrange(i + 1, j) =~= s.subrange(i, j));
        assert(rewritten_from(s, i) =~= s.subrange(i, j) + rewritten_from(s, j));
    } else {
        assert(rewritten_from(s, i) =~= s.subrange(i, j) + rewritten_from(s, j));
    }
}

/// A text in which no span opens is rewritten to itself.
pub proof fn lemma_without_span_unchanged(s: Seq<char>)
    requires
        forall|k: int| !#[trigger] opens_span(s, k),
    ensures
        rewritten(s) == s,
{
    lemma_stretch_copied(s, 0, s.len() as int);
    assert(s.subrange(0, s.len() as int) + rewritten_from(s, s.len() as int) =~= s);
}

/// A text without a delimiter, that is one in which every run of `=` has a
/// length other than two, is rewritten to itself.
pub proof fn lemma_without_delimiter_unchanged(s: Seq<char>)
    requires
        forall|k: int| !#[trigger] is_delimiter(s, k),
    ensures
        rewritten(s) == s,
{
    lemma_without_span_unchanged(s);
}

/// A text that holds no `=` is rewritten to itself.
pub proof fn lemma_free_of_equals_unchanged(s: Seq<char>)
    requires
        free_of_equals(s),
    ensures
        rewritten(s) == s,
{
    lemma_without_delimiter_unchanged(s);
}

/// A run of `=` of any length but two, between texts that hold no `=`, is no
/// delimiter: the whole text is rewritten to itself. This holds of a single
/// `=` and of three or more in a row.
pub proof fn lemma_run_unchanged(before: Seq<char>, n: nat, after: Seq<char>)
    requires
        n != 2,
        free_of_equals(before),
        free_of_equals(after),
    ensures
        rewritten(before + equals_run(n) + after) == before + equals_run(n) + after,
{
    let s = before + equals_run(n) + after;
    assert forall|k: int| !#[trigger] is_delimiter(s, k) by {
        if is_delimiter(s, k) {
            assert(s[k] == '=' && s[k + 1] == '=');
            assert(before.len() <= k && k + 1 < before.len() + n);
            assert(n >= 3);
            if k > before.len() {
                assert(s[k - 1] == '=');
            } else {
                assert(s[k + 2] == '=');
            }
        }
    }
    lemma_without_delimiter_unchanged(s);
}

/// Behind a clean joint the reading of a text does not depend on what stood
/// before it.
pub proof fn lemma_reading_resumes(left: Seq<char>, right: Seq<char>, i: int)
    requires
        clean_joint(left, right),
        0 <= i <= right.len(),
    ensures
        rewritten_from(left + right, left.len() + i) == rewritten_from(right, i),
    decreases right.len() - i,
{
    let s = left + right;
    let m = left.len() as int;
    if i < right.len() {
        lemma_delimiter_shifted(left, right, i);
        lemma_plain_len_shifted(left, right, i + 2);
        let j = closing_at(right, i);
        assert(closing_at(s, m + i) == m + j);
        if is_delimiter(right, i) {
            lemma_delimiter_shifted(left, right, j);
        }
        if opens_span(right, i) {
            assert(opens_span(s, m + i));
            lemma_reading_resumes(left, right, j + 2);
            assert(s.subrange(m + i + 2, m + j) =~= right.subrange(i + 2, j));
        } else {
            assert(!opens_span(s, m + i));
            lemma_reading_resumes(left, right, i + 1);
        }
    }
}

/// Behind a clean joint a delimiter of the whole text is one of the right
/// part, and the other way round.
pub proof fn lemma_delimiter_shifted(left: Seq<char>, right: Seq<char>, i: int)
    requires
        clean_joint(left, right),
        0 <= i,
    ensures
        is_delimiter(left + right, left.len() + i) == is_delimiter(right, i),
{
    let s = left + right;
    let m = left.len() as int;
    if i + 2 <= right.len() {
        assert(s[m + i] == right[i]);
        assert(s[m + i + 1] == right[i + 1]);
        if i > 0 {
            assert(s[m + i - 1] == right[i - 1]);
        } else if m > 0 {
            assert(s[m - 1] == left.last());
        }
        if i + 2 < right.len() {
            assert(s[m + i + 2] == right[i + 2]);
        }
    }
}

/// The plain characters that follow a position of the right part are those
/// that follow it in the whole text.
pub proof fn lemma_plain_len_shifted(left: Seq<char>, right: Seq<char>, i: int)
    requires
        0 <= i,
    ensures
        plain_len(left + right, left.len() + i) == plain_len(right, i),
    decreases right.len() - i,
{
    if i < right.len() {
        assert((left + right)[left.len() + i] == right[i]);
        lemma_plain_len_shifted(left, right, i + 1);
    }
}

/// A well-formed span: a body that is not empty and holds no `=`, between two
/// delimiters. Where no delimiter stands in the text before it, and neither
/// neighbour touches the span with a `=`, the text before is kept, the span
/// is wrapped, and the text behind is rewritten as if it stood alone.
pub proof fn lemma_span_wrapped(before: Seq<char>, body: Seq<char>, after: Seq<char>)
    requires
        body.len() > 0,
        free_of_equals(body),
        forall|k: int| !#[trigger] is_delimiter(before, k),
        before.len() == 0 || before.last() != '=',
        after.len() == 0 || after[0] != '=',
    ensures
        rewritten(before + equals_run(2) + body + equals_run(2) + after) == before + open_tag()
            + body + close_tag() + rewritten(after),
{
    let head = before + equals_run(2) + body + equals_run(2);
    let s = head + after;
    let m = before.len() as int;
    let b = body.len() as int;
    assert(s =~= before + equals_run(2) + body + equals_run(2) + after);
    assert forall|k: int| 0 <= k < m implies !#[trigger] opens_span(s, k) by {
        if is_delimiter(s, k) {
            assert(s[k] == before[k]);
            assert(k + 1 < m);
            assert(s[k + 1] == before[k + 1]);
            if k > 0 {
                assert(s[k - 1] == before[k - 1]);
            }
            if k + 2 < m {
                assert(s[k + 2] == before[k + 2]);
            }
            assert(is_delimiter(before, k));
        }
    }
    lemma_stretch_copied(s, 0, m);
    assert(s.subrange(0, m) =~= before);
    assert(s[m] == '=' && s[m + 1] == '=');
    assert(s[m + 2] == body[0]);
    assert(s[m + 1 + b] == body[b - 1]);
    assert(s[m + 2 + b] == '=' && s[m + 3 + b] == '=');
    assert forall|k: int| m + 2 <= k < m + 2 + b implies s[k] != '=' by {
        assert(s[k] == body[k - m - 2]);
    }
    lemma_plain_len(s, m + 2, m + 2 + b);
    assert(closing_at(s, m) == m + 2 + b);
    assert(is_delimiter(s, m));
    if after.len() > 0 {
        assert(s[m + 4 + b] == after[0]);
    }
    assert(is_delimiter(s, m + 2 + b));
    assert(opens_span(s, m));
    assert(s.subrange(m + 2, m + 2 + b) =~= body);
    lemma_reading_resumes(head, after, 0);
    assert(head.len() == m + b + 4);
    assert(rewritten_from(s, m) == open_tag() + body + close_tag() + rewritten_from(
        s,
        m + b + 4,
    ));
    assert(before + (open_tag() + body + close_tag() + rewritten(after)) =~= before + open_tag()
        + body + close_tag() + rewritten(after));
}

/// A well-formed span between texts that hold no `=`: the span is wrapped and
/// both texts are kept.
pub proof fn lemma_pair_wrapped(before: Seq<char>, body: Seq<char>, after: Seq<char>)
    requires
        body.len() > 0,
        free_of_equals(before),
        free_of_equals(body),
        free_of_equals(after),
    ensures
        rewritten(before + equals_run(2) + body + equals_run(2) + after) == before + open_tag()
            + body + close_tag() + after,
{
    lemma_free_of_equals_unchanged(after);
    lemma_span_wrapped(before, body, after);
}

/// The only `=` of the opening markup has no `=` beside it, and the closing
/// markup has none at all.
pub proof fn lemma_markup_shape()
    ensures
        open_tag().len() == 25,
        forall|k: int| 0 <= k < 25 && k != 11 ==> #[trigger] open_tag()[k] != '=',
        close_tag().len() == 7,
        free_of_equals(close_tag()),
{
    reveal_strlit("<span class=\"small-caps\">");
    reveal_strlit("</span>");
}

/// Markup that the scanner has written is not read as a span again: a wrapped
/// body between texts, none of them holding a `=`, is rewritten to itself.
pub proof fn lemma_wrapped_text_stable(before: Seq<char>, body: Seq<char>, after: Seq<char>)
    requires
        free_of_equals(before),
        free_of_equals(body),
        free_of_equals(after),
    ensures
        rewritten(before + open_tag() + body + close_tag() + after) == before + open_tag() + body
            + close_tag() + after,
{
    lemma_markup_shape();
    let s = before + open_tag() + body + close_tag() + after;
    let m = before.len() as int;
    assert forall|k: int| !#[trigger] is_delimiter(s, k) by {
        if is_delimiter(s, k) {
            lemma_only_equals(before, body, after, k);
            lemma_only_equals(before, body, after, k + 1);
        }
    }
    lemma_without_delimiter_unchanged(s);
}

/// In a wrapped body between texts that hold no `=`, a `=` stands only in the
/// opening markup.
proof fn lemma_only_equals(before: Seq<char>, body: Seq<char>, after: Seq<char>, k: int)
    requires
        free_of_equals(before),
        free_of_equals(body),
        free_of_equals(after),
        0 <= k < (before + open_tag() + body + close_tag() + after).len(),
        (before + open_tag() + body + close_tag() + after)[k] == '=',
    ensures
        k == before.len() + 11,
{
    lemma_markup_shape();
    let m = before.len() as int;
    let b = body.len() as int;
    let s = before + open_tag() + body + close_tag() + after;
    if k < m {
        assert(s[k] == before[k]);
    } else if k < m + 25 {
        assert(s[k] == open_tag()[k - m]);
    } else if k < m + 25 + b {
        assert(s[k] == body[k - m - 25]);
    } else if k < m + 32 + b {
        assert(s[k] == close_tag()[k - m - 25 - b]);
    } else {
        assert(s[k] == after[k - m - 32 - b]);
    }
}

} // verus!
