//! Rewriting twice is rewriting once: in a text that the scanner has written
//! no span opens any more.

use crate::laws::{
    clean_joint, equals_run, free_of_equals, lemma_delimiter_shifted, lemma_markup_shape,
    lemma_plain_len_shifted, lemma_stretch_copied, lemma_without_span_unchanged,
};
use crate::scanner::{
    close_tag, closing_at, is_delimiter, lemma_plain_len, open_tag, opens_span, plain_len,
    rewritten, rewritten_from,
};
use vstd::prelude::*;

verus! {

/// No span opens anywhere in the text.
pub open spec fn settled(t: Seq<char>) -> bool {
    forall|p: int| !#[trigger] opens_span(t, p)
}

/// The text is empty or begins with a character other than `=`.
pub open spec fn starts_plain(t: Seq<char>) -> bool {
    t.len() == 0 || t[0] != '='
}

/// The number of signs `=` in a row from position `i` on.
pub open spec fn run_len(s: Seq<char>, i: int) -> nat
    decreases s.len() - i,
{
    if 0 <= i < s.len() && s[i] == '=' {
        1 + run_len(s, i + 1)
    } else {
        0
    }
}

/// Position `i` does not stand between two signs `=`.
pub open spec fn at_boundary(s: Seq<char>, i: int) -> bool {
    0 <= i <= s.len() && !(0 < i < s.len() && s[i - 1] == '=' && s[i] == '=')
}

/// The plain characters that follow `i` hold no `=`, and behind them stands
/// a `=` or the end of the text.
pub proof fn lemma_plain_stretch(s: Seq<char>, i: int)
    requires
        0 <= i <= s.len(),
    ensures
        i + plain_len(s, i) <= s.len(),
        forall|q: int| i <= q < i + plain_len(s, i) ==> s[q] != '=',
        i + plain_len(s, i) == s.len() || s[i + plain_len(s, i)] == '=',
    decreases s.len() - i,
{
    if i < s.len() && s[i] != '=' {
        lemma_plain_stretch(s, i + 1);
    }
}

/// The run that starts at `i` holds nothing but `=`, and behind it stands
/// another character or the end of the text.
pub proof fn lemma_run_stretch(s: Seq<char>, i: int)
    requires
        0 <= i <= s.len(),
    ensures
        i + run_len(s, i) <= s.len(),
        forall|q: int| i <= q < i + run_len(s, i) ==> s[q] == '=',
        i + run_len(s, i) == s.len() || s[i + run_len(s, i)] != '=',
    decreases s.len() - i,
{
    if i < s.len() && s[i] == '=' {
        lemma_run_stretch(s, i + 1);
    }
}

/// What is written for a plain character, or at the end of the text, does
/// not begin with `=`.
pub proof fn lemma_starts_plain(s: Seq<char>, i: int)
    requires
        0 <= i <= s.len(),
        i == s.len() || s[i] != '=',
    ensures
        starts_plain(rewritten_from(s, i)),
{
    if i < s.len() {
        assert(!opens_span(s, i));
        assert(rewritten_from(s, i)[0] == s[i]);
    }
}

/// A run that opens no span is copied as it stands.
pub proof fn lemma_run_copied(s: Seq<char>, i: int)
    requires
        0 <= i < s.len(),
        s[i] == '=',
        i == 0 || s[i - 1] != '=',
        !opens_span(s, i),
    ensures
        run_len(s, i) >= 1,
        i + run_len(s, i) <= s.len(),
        rewritten_from(s, i) == equals_run(run_len(s, i)) + rewritten_from(s, i + run_len(s, i)),
        starts_plain(rewritten_from(s, i + run_len(s, i))),
        (run_len(s, i) == 2) == is_delimiter(s, i),
{
    let k = run_len(s, i) as int;
    lemma_run_stretch(s, i);
    assert(k >= 1);
    assert forall|q: int| i <= q < i + k implies !#[trigger] opens_span(s, q) by {
        if q > i {
            assert(s[q - 1] == '=');
        }
    }
    lemma_stretch_copied(s, i, i + k);
    assert(s.subrange(i, i + k) =~= equals_run(k as nat));
    lemma_starts_plain(s, i + k);
    if k == 2 {
        assert(s[i + 1] == '=');
    }
    if is_delimiter(s, i) {
        if k == 1 {
            assert(s[i + 1] == '=');
        } else if k > 2 {
            assert(s[i + 2] == '=');
        }
    }
}

/// In a run of any length but two before a text that starts plain, no
/// delimiter stands.
pub proof fn lemma_run_holds_no_delimiter(n: nat, t: Seq<char>, q: int)
    requires
        n != 2,
        starts_plain(t),
        q < n,
    ensures
        !is_delimiter(equals_run(n) + t, q),
{
    let s = equals_run(n) + t;
    if is_delimiter(s, q) {
        if q > 0 {
            assert(s[q - 1] == '=');
        } else if n == 1 {
            assert(s[1] == t[0]);
        } else {
            assert(s[2] == '=');
        }
    }
}

/// Before a settled text stands a text that joins it cleanly and in which no
/// span opens: then the whole is settled.
pub proof fn lemma_settled_behind(left: Seq<char>, right: Seq<char>)
    requires
        settled(right),
        clean_joint(left, right),
        forall|p: int| 0 <= p < left.len() ==> !#[trigger] opens_span(left + right, p),
    ensures
        settled(left + right),
{
    let s = left + right;
    let m = left.len() as int;
    assert forall|p: int| !#[trigger] opens_span(s, p) by {
        if p >= m {
            let q = p - m;
            lemma_delimiter_shifted(left, right, q);
            lemma_plain_len_shifted(left, right, q + 2);
            assert(closing_at(s, p) == m + closing_at(right, q));
            lemma_delimiter_shifted(left, right, closing_at(right, q));
            assert(!opens_span(right, q));
        }
    }
}

/// In what the scanner writes from a boundary on, no span opens.
pub proof fn lemma_written_is_settled(s: Seq<char>, i: int)
    requires
        at_boundary(s, i),
    ensures
        settled(rewritten_from(s, i)),
    decreases s.len() - i,
{
    let out = rewritten_from(s, i);
    if i == s.len() {
        assert forall|p: int| !#[trigger] opens_span(out, p) by {}
    } else if s[i] != '=' {
        lemma_written_is_settled(s, i + 1);
        let left = seq![s[i]];
        let right = rewritten_from(s, i + 1);
        assert(!opens_span(s, i));
        assert(out == left + right);
        assert((left + right)[0] == s[i]);
        lemma_settled_behind(left, right);
    } else if opens_span(s, i) {
        let j = closing_at(s, i);
        lemma_plain_stretch(s, i + 2);
        lemma_written_is_settled(s, j + 2);
        let body = s.subrange(i + 2, j);
        let left = open_tag() + body + close_tag();
        let right = rewritten_from(s, j + 2);
        assert(out == left + right);
        lemma_markup_shape();
        assert(left.last() == close_tag()[6]);
        assert forall|p: int| 0 <= p < left.len() implies !#[trigger] opens_span(
            left + right,
            p,
        ) by {
            lemma_markup_has_no_delimiter(body, right, p);
        }
        lemma_settled_behind(left, right);
    } else {
        let k = run_len(s, i);
        lemma_run_copied(s, i);
        lemma_written_is_settled(s, i + k);
        let left = equals_run(k);
        let right = rewritten_from(s, i + k);
        assert(out == left + right);
        if k != 2 {
            assert forall|p: int| 0 <= p < left.len() implies !#[trigger] opens_span(
                left + right,
                p,
            ) by {
                lemma_run_holds_no_delimiter(k, right, p);
            }
        } else {
            lemma_unclosed_stays_unclosed(s, i);
            assert forall|p: int| 0 <= p < left.len() implies !#[trigger] opens_span(
                left + right,
                p,
            ) by {
                if p == 1 {
                    assert((left + right)[0] == '=');
                }
            }
        }
        lemma_settled_behind(left, right);
    }
}

/// In the markup of a span before any text, no delimiter stands.
proof fn lemma_markup_has_no_delimiter(body: Seq<char>, right: Seq<char>, p: int)
    requires
        free_of_equals(body),
        0 <= p < (open_tag() + body + close_tag()).len(),
    ensures
        !is_delimiter(open_tag() + body + close_tag() + right, p),
{
    lemma_markup_shape();
    let s = open_tag() + body + close_tag() + right;
    let b = body.len() as int;
    if is_delimiter(s, p) {
        if p < 25 {
            assert(s[p] == open_tag()[p]);
            assert(p == 11);
            assert(s[12] == open_tag()[12]);
        } else if p < 25 + b {
            assert(s[p] == body[p - 25]);
        } else {
            assert(s[p] == close_tag()[p - 25 - b]);
        }
    }
}

/// A delimiter that opened no span opens none in what is written for it: the
/// run of `=` that follows it is copied, and is no delimiter.
proof fn lemma_unclosed_stays_unclosed(s: Seq<char>, i: int)
    requires
        is_delimiter(s, i),
        !opens_span(s, i),
    ensures
        !opens_span(equals_run(2) + rewritten_from(s, i + 2), 0),
{
    let j = closing_at(s, i);
    let m = plain_len(s, i + 2) as int;
    let right = rewritten_from(s, i + 2);
    let whole = equals_run(2) + right;
    lemma_plain_stretch(s, i + 2);
    assert forall|q: int| i + 2 <= q < j implies !#[trigger] opens_span(s, q) by {}
    lemma_stretch_copied(s, i + 2, j);
    let plain = s.subrange(i + 2, j);
    let rest = rewritten_from(s, j);
    assert(right == plain + rest);
    lemma_plain_len_shifted(equals_run(2), right, 0);
    if j == s.len() {
        assert(rest.len() == 0);
        assert(right =~= plain);
        lemma_plain_len(right, 0, m);
        assert(closing_at(whole, 0) == whole.len());
    } else {
        assert(m > 0);
        assert(s[j - 1] != '=');
        lemma_run_copied(s, j);
        let n = run_len(s, j);
        let tail = rewritten_from(s, j + n);
        assert(rest == equals_run(n) + tail);
        assert(rest[0] == '=');
        assert(right[m] == rest[0]);
        assert forall|q: int| 0 <= q < m implies right[q] != '=' by {
            assert(right[q] == s[i + 2 + q]);
        }
        lemma_plain_len(right, 0, m);
        assert(closing_at(whole, 0) == 2 + m);
        assert(right[0] == s[i + 2]);
        lemma_delimiter_shifted(equals_run(2), right, m);
        assert(plain.last() == s[j - 1]);
        lemma_delimiter_shifted(plain, rest, 0);
        lemma_run_holds_no_delimiter(n, tail, 0);
    }
}

/// Rewriting is idempotent: a text that the scanner has written is
/// rewritten to itself.
pub proof fn lemma_rewritten_twice(s: Seq<char>)
    ensures
        rewritten(rewritten(s)) == rewritten(s),
{
    lemma_written_is_settled(s, 0);
    lemma_without_span_unchanged(rewritten(s));
}

} // verus!
