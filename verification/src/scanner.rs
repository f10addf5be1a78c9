//! The delimiter scanner: a total function from one run of plain text to the
//! same run with every span `==body==` wrapped in small-caps markup.

use vstd::prelude::*;
use vstd::string::StringExecFns;

verus! {

/// `String::push` appends the given character to the end of the string.
pub assume_specification[ String::push ](s: &mut String, ch: char)
    ensures
        final(s)@ == old(s)@.push(ch),
;

/// The markup that opens a small-caps span.
pub open spec fn open_tag() -> Seq<char> {
    "<span class=\"small-caps\">"@
}

/// The markup that closes a small-caps span.
pub open spec fn close_tag() -> Seq<char> {
    "</span>"@
}

/// The number of characters from position `i` up to the next `=` or the end
/// of the text, whichever comes first.
pub open spec fn plain_len(s: Seq<char>, i: int) -> nat
    decreases s.len() - i,
{
    if 0 <= i < s.len() && s[i] != '=' {
        1 + plain_len(s, i + 1)
    } else {
        0
    }
}

/// A delimiter stands at `i`: exactly two `=` signs, with no further `=` on
/// either side of them.
pub open spec fn is_delimiter(s: Seq<char>, i: int) -> bool {
    &&& 0 <= i
    &&& i + 2 <= s.len()
    &&& s[i] == '='
    &&& s[i + 1] == '='
    &&& (i == 0 || s[i - 1] != '=')
    &&& (i + 2 == s.len() || s[i + 2] != '=')
}

/// Where the first `=` after the two characters at `i` stands (the length of
/// the text if there is none).
pub open spec fn closing_at(s: Seq<char>, i: int) -> int {
    i + 2 + plain_len(s, i + 2)
}

/// A span opens at `i`: a delimiter stands there, and the next `=` after it
/// begins a delimiter too.
pub open spec fn opens_span(s: Seq<char>, i: int) -> bool {
    is_delimiter(s, i) && is_delimiter(s, closing_at(s, i))
}

/// The text that the characters of `s` from position `i` on are rewritten to,
/// reading from left to right: a span is replaced by its wrapped body and the
/// reading goes on behind its closing delimiter; any other character stands
/// for itself.
pub open spec fn rewritten_from(s: Seq<char>, i: int) -> Seq<char>
    decreases s.len() - i,
{
    if i < 0 || i >= s.len() {
        Seq::empty()
    } else if opens_span(s, i) {
        open_tag() + s.subrange(i + 2, closing_at(s, i)) + close_tag() + rewritten_from(
            s,
            closing_at(s, i) + 2,
        )
    } else {
        seq![s[i]] + rewritten_from(s, i + 1)
    }
}

/// The text that `s` is rewritten to.
pub open spec fn rewritten(s: Seq<char>) -> Seq<char> {
    rewritten_from(s, 0)
}

/// If no `=` stands in `s` from `i` up to `j`, and `j` is the end of the text
/// or holds a `=`, then `j - i` plain characters follow `i`.
pub proof fn lemma_plain_len(s: Seq<char>, i: int, j: int)
    requires
        0 <= i <= j <= s.len(),
        forall|k: int| i <= k < j ==> s[k] != '=',
        j == s.len() || s[j] == '=',
    ensures
        plain_len(s, i) == j - i,
    decreases j - i,
{
    if i < j {
        lemma_plain_len(s, i + 1, j);
    }
}

/// The characters of a text, in order.
pub fn characters(text: &str) -> (chars: Vec<char>)
    ensures
        chars@ == text@,
{
    broadcast use vstd::string::group_string_axioms;

    let mut chars: Vec<char> = Vec::new();
    for c in it: text.chars()
        invariant
            it.seq() == text@,
            chars@ == it.history(),
    {
        chars.push(c);
    }
    assert(chars@ =~= text@);
    chars
}

/// Whether a delimiter stands at position `i` of `chars`.
pub fn delimiter_at(chars: &Vec<char>, i: usize) -> (found: bool)
    ensures
        found == is_delimiter(chars@, i as int),
{
    let n: usize = chars.len();
    if i >= n || n - i < 2 {
        return false;
    }
    chars[i] == '=' && chars[i + 1] == '=' && (i == 0 || chars[i - 1] != '=') && (n - i == 2
        || chars[i + 2] != '=')
}

/// Rewrites one run of plain text: every span `==body==` becomes
/// `<span class="small-caps">body</span>`, and every other character is kept.
pub fn rewrite_text(text: &str) -> (out: String)
    ensures
        out@ == rewritten(text@),
{
    let chars = characters(text);
    let n: usize = chars.len();
    let mut out = String::new();
    let mut i: usize = 0;
    while i < n
        invariant
            n == chars@.len(),
            i <= n,
            out@ + rewritten_from(chars@, i as int) == rewritten(chars@),
        decreases n - i,
    {
        if delimiter_at(&chars, i) {
            let mut j: usize = i + 2;
            while j < n && chars[j] != '='
                invariant
                    n == chars@.len(),
                    i + 2 <= j <= n,
                    forall|k: int| i + 2 <= k < j ==> chars@[k] != '=',
                decreases n - j,
            {
                j += 1;
            }
            proof {
                lemma_plain_len(chars@, i + 2, j as int);
            }
            if delimiter_at(&chars, j) {
                let ghost before = out@;
                out.append("<span class=\"small-caps\">");
                let mut k: usize = i + 2;
                while k < j
                    invariant
                        i + 2 <= k <= j <= n,
                        n == chars@.len(),
                        out@ == before + open_tag() + chars@.subrange(i + 2, k as int),
                    decreases j - k,
                {
                    out.push(chars[k]);
                    k += 1;
                }
                out.append("</span>");
                i = j + 2;
                continue;
            }
        }
        out.push(chars[i]);
        i += 1;
    }
    out
}

} // verus!
