//! Cleaning of cue text: removal of inline presentation markup and
//! whitespace trimming.
//!
//! Two independent markup families are removed, each "an opening delimiter,
//! a run of characters that cannot contain the closing delimiter, then the
//! closing delimiter":
//! - brace groups such as `{\i1}` (the run may be empty), and
//! - angle-bracket tags such as `<i>` (the run must be non-empty, so a bare
//!   `<>` is left alone).
//!
//! Entities such as `&amp;` are passed through unchanged: no unescaping is
//! performed.

use vstd::prelude::*;

verus! {

/// A character with the Unicode `White_Space` property, the set that
/// `str::trim` removes at the ends of a string.
pub open spec fn is_space_char(c: char) -> bool {
    let u = c as u32;
    ||| (9 <= u && u <= 13)
    ||| u == 32
    ||| u == 0x85
    ||| u == 0xA0
    ||| u == 0x1680
    ||| (0x2000 <= u && u <= 0x200A)
    ||| u == 0x2028
    ||| u == 0x2029
    ||| u == 0x202F
    ||| u == 0x205F
    ||| u == 0x3000
}

/// True when every character of `s` is whitespace; in particular true of the
/// empty sequence.
pub open spec fn is_blank(s: Seq<char>) -> bool {
    forall|i: int| 0 <= i < s.len() ==> is_space_char(#[trigger] s[i])
}

/// The index of the first occurrence of `close` in `s` at or after `i`, or
/// `s.len()` when there is none.
pub open spec fn first_close_at(s: Seq<char>, close: char, i: int) -> int
    decreases s.len() - i,
{
    if i < 0 || i >= s.len() {
        s.len() as int
    } else if s[i] == close {
        i
    } else {
        first_close_at(s, close, i + 1)
    }
}

/// What remains of `s.skip(i)` after removing every markup group that opens
/// with `open` and closes with the nearest following `close`. A group is
/// removed only when opener and closer stand at least `min_gap` apart, so
/// `min_gap == 1` allows an empty group and `min_gap == 2` demands at least
/// one enclosed character.
pub open spec fn strip_from(s: Seq<char>, open: char, close: char, min_gap: int, i: int) -> Seq<
    char,
>
    decreases s.len() - i,
{
    if i < 0 || i >= s.len() {
        Seq::empty()
    } else {
        let k = first_close_at(s, close, i + 1);
        if s[i] == open && i < k && k < s.len() && k - i >= min_gap {
            strip_from(s, open, close, min_gap, k + 1)
        } else {
            seq![s[i]] + strip_from(s, open, close, min_gap, i + 1)
        }
    }
}

/// `s` with every well-formed `open ... close` markup group removed.
pub open spec fn strip_markup(s: Seq<char>, open: char, close: char, min_gap: int) -> Seq<char> {
    strip_from(s, open, close, min_gap, 0)
}

/// `s` without its leading whitespace.
pub open spec fn trim_start_spec(s: Seq<char>) -> Seq<char>
    decreases s.len(),
{
    if s.len() > 0 && is_space_char(s[0]) {
        trim_start_spec(s.skip(1))
    } else {
        s
    }
}

/// `s` without its trailing whitespace.
pub open spec fn trim_end_spec(s: Seq<char>) -> Seq<char>
    decreases s.len(),
{
    if s.len() > 0 && is_space_char(s.last()) {
        trim_end_spec(s.drop_last())
    } else {
        s
    }
}

/// `s` without leading and trailing whitespace.
pub open spec fn trim_spec(s: Seq<char>) -> Seq<char> {
    trim_end_spec(trim_start_spec(s))
}

/// A cleaned cue: brace groups removed, then angle-bracket tags removed,
/// then the ends trimmed.
pub open spec fn spec_clean(s: Seq<char>) -> Seq<char> {
    trim_spec(strip_markup(strip_markup(s, '{', '}', 1), '<', '>', 2))
}

/// Decides `is_space_char` for one character.
pub fn is_space(c: char) -> (r: bool)
    ensures
        r == is_space_char(c),
{
    let u = c as u32;
    (9 <= u && u <= 13) || u == 32 || u == 0x85 || u == 0xA0 || u == 0x1680 || (0x2000 <= u && u
        <= 0x200A) || u == 0x2028 || u == 0x2029 || u == 0x202F || u == 0x205F || u == 0x3000
}

/// The characters of `s`, in order.
pub fn str_to_chars(s: &str) -> (r: Vec<char>)
    ensures
        r@ == s@,
{
    let n = s.unicode_len();
    let mut r: Vec<char> = Vec::new();
    let mut i: usize = 0;
    while i < n
        invariant
            n == s@.len(),
            i <= n,
            r@ == s@.take(i as int),
        decreases n - i,
    {
        r.push(s.get_char(i));
        assert(s@.take(i + 1) =~= s@.take(i as int).push(s@[i as int]));
        i = i + 1;
    }
    assert(s@.take(n as int) =~= s@);
    r
}

/// Relies on `String: FromIterator<char>`: collecting characters yields the
/// string made of exactly those characters in order.
#[verifier::external_body]
pub(crate) fn chars_to_string(v: &Vec<char>) -> (r: String)
    ensures
        r@ == v@,
{
    v.iter().collect()
}

/// `first_close_at` returns the position of the first `close` at or after
/// `i`, and `s.len()` exactly when there is none.
pub proof fn lemma_first_close_at(s: Seq<char>, close: char, i: int)
    requires
        0 <= i <= s.len(),
    ensures
        ({
            let k = first_close_at(s, close, i);
            &&& i <= k <= s.len()
            &&& (k < s.len() ==> s[k] == close)
            &&& forall|j: int| i <= j < k ==> s[j] != close
        }),
    decreases s.len() - i,
{
    if i < s.len() && s[i] != close {
        lemma_first_close_at(s, close, i + 1);
    }
}

/// Removes every `open ... close` markup group of `v`, leaving all other
/// characters in order.
pub fn strip_markup_chars(v: &Vec<char>, open: char, close: char, min_gap: usize) -> (r: Vec<char>)
    ensures
        r@ == strip_markup(v@, open, close, min_gap as int),
{
    let ghost g = min_gap as int;
    let n = v.len();
    let mut out: Vec<char> = Vec::new();
    let mut i: usize = 0;
    assert(Seq::<char>::empty() + strip_from(v@, open, close, g, 0) =~= strip_from(
        v@,
        open,
        close,
        g,
        0,
    ));
    while i < n
        invariant
            n == v@.len(),
            i <= n,
            out@ + strip_from(v@, open, close, g, i as int) == strip_from(v@, open, close, g, 0),
            g == min_gap as int,
        decreases n - i,
    {
        let c = v[i];
        let ghost k = first_close_at(v@, close, i + 1);
        if c == open {
            let mut j = i + 1;
            while j < n && v[j] != close
                invariant
                    n == v@.len(),
                    i + 1 <= j <= n,
                    forall|m: int| i + 1 <= m < j ==> v@[m] != close,
                decreases n - j,
            {
                j = j + 1;
            }
            proof {
                lemma_first_close_at(v@, close, i + 1);
                assert(k == j as int);
            }
            if j < n && j - i >= min_gap {
                proof {
                    assert(strip_from(v@, open, close, g, i as int) == strip_from(
                        v@,
                        open,
                        close,
                        g,
                        k + 1,
                    ));
                }
                i = j + 1;
            } else {
                out.push(c);
                proof {
                    assert(out@ + strip_from(v@, open, close, g, i + 1) =~= strip_from(
                        v@,
                        open,
                        close,
                        g,
                        0,
                    ));
                }
                i = i + 1;
            }
        } else {
            out.push(c);
            proof {
                assert(out@ + strip_from(v@, open, close, g, i + 1) =~= strip_from(
                    v@,
                    open,
                    close,
                    g,
                    0,
                ));
            }
            i = i + 1;
        }
    }
    proof {
        assert(out@ + strip_from(v@, open, close, g, n as int) =~= out@);
    }
    out
}

/// Removes leading and trailing whitespace from `v`.
pub fn trim_chars(v: &Vec<char>) -> (r: Vec<char>)
    ensures
        r@ == trim_spec(v@),
{
    let n = v.len();
    let mut start: usize = 0;
    proof {
        assert(v@.skip(0) =~= v@);
    }
    while start < n && is_space(v[start])
        invariant
            n == v@.len(),
            start <= n,
            trim_start_spec(v@) == trim_start_spec(v@.skip(start as int)),
        decreases n - start,
    {
        proof {
            assert(v@.skip(start as int).skip(1) =~= v@.skip(start + 1));
        }
        start = start + 1;
    }
    proof {
        assert(trim_start_spec(v@) == v@.skip(start as int));
    }
    let mut end: usize = n;
    proof {
        assert(v@.subrange(start as int, n as int) =~= v@.skip(start as int));
    }
    while end > start && is_space(v[end - 1])
        invariant
            n == v@.len(),
            start <= end <= n,
            trim_spec(v@) == trim_end_spec(v@.subrange(start as int, end as int)),
        decreases end,
    {
        proof {
            assert(v@.subrange(start as int, end as int).drop_last() =~= v@.subrange(
                start as int,
                end - 1,
            ));
        }
        end = end - 1;
    }
    proof {
        assert(trim_spec(v@) == v@.subrange(start as int, end as int));
    }
    let mut out: Vec<char> = Vec::new();
    let mut i: usize = start;
    while i < end
        invariant
            n == v@.len(),
            start <= i <= end <= n,
            out@ == v@.subrange(start as int, i as int),
        decreases end - i,
    {
        out.push(v[i]);
        proof {
            assert(out@ =~= v@.subrange(start as int, i + 1));
        }
        i = i + 1;
    }
    out
}

/// Stripping markup looks only at positions at or after `i`: it equals
/// stripping the suffix `s.skip(i)`.
pub proof fn lemma_strip_from_skip(s: Seq<char>, open: char, close: char, min_gap: int, i: int)
    requires
        0 <= i <= s.len(),
    ensures
        strip_from(s, open, close, min_gap, i) == strip_markup(s.skip(i), open, close, min_gap),
    decreases s.len() - i,
{
    let t = s.skip(i);
    if i == s.len() {
        assert(t.len() == 0);
    } else {
        let ks = first_close_at(s, close, i + 1);
        let kt = first_close_at(t, close, 1);
        lemma_first_close_at(s, close, i + 1);
        lemma_first_close_at(t, close, 1);
        assert(forall|j: int| 0 <= j < t.len() ==> t[j] == s[i + j]);
        assert(kt == ks - i) by {
            if kt < ks - i {
                assert(s[i + kt] == close);
            }
            if kt > ks - i && ks < s.len() {
                assert(t[ks - i] == close);
            }
        }
        if s[i] == open && i < ks && ks < s.len() && ks - i >= min_gap {
            lemma_strip_from_skip(s, open, close, min_gap, ks + 1);
            lemma_strip_from_skip(t, open, close, min_gap, kt + 1);
            assert(t.skip(kt + 1) =~= s.skip(ks + 1));
        } else {
            lemma_strip_from_skip(s, open, close, min_gap, i + 1);
            lemma_strip_from_skip(t, open, close, min_gap, 1);
            assert(t.skip(1) =~= s.skip(i + 1));
            assert(seq![s[i]] + strip_markup(s.skip(i + 1), open, close, min_gap) == seq![t[0]]
                + strip_markup(t.skip(1), open, close, min_gap));
        }
    }
}

/// A sequence without the opening delimiter is left unchanged by stripping.
pub proof fn lemma_strip_no_open(s: Seq<char>, open: char, close: char, min_gap: int)
    requires
        forall|i: int| 0 <= i < s.len() ==> s[i] != open,
    ensures
        strip_markup(s, open, close, min_gap) == s,
    decreases s.len(),
{
    if s.len() == 0 {
        assert(strip_markup(s, open, close, min_gap) =~= s);
    } else {
        lemma_strip_from_skip(s, open, close, min_gap, 1);
        lemma_strip_no_open(s.skip(1), open, close, min_gap);
        assert(seq![s[0]] + s.skip(1) =~= s);
    }
}

/// Independent removal of one markup group: for a prefix `p` free of the
/// opening delimiter and a group body `m` free of the closing one, stripping
/// `p open m close q` yields `p` followed by the stripped `q`. Adjacent or
/// further groups fall to repeated application on `q`.
pub proof fn lemma_strip_group(
    p: Seq<char>,
    m: Seq<char>,
    q: Seq<char>,
    open: char,
    close: char,
    min_gap: int,
)
    requires
        forall|i: int| 0 <= i < p.len() ==> p[i] != open,
        forall|i: int| 0 <= i < m.len() ==> m[i] != close,
        1 <= min_gap <= m.len() + 1,
    ensures
        strip_markup(p + seq![open] + m + seq![close] + q, open, close, min_gap) == p
            + strip_markup(q, open, close, min_gap),
    decreases p.len(),
{
    let s = p + seq![open] + m + seq![close] + q;
    if p.len() == 0 {
        let k = first_close_at(s, close, 1);
        lemma_first_close_at(s, close, 1);
        assert(s[m.len() as int + 1] == close);
        assert(k == m.len() as int + 1) by {
            if k < m.len() as int + 1 {
                assert(s[k] == m[k - 1]);
            }
        }
        assert(s[0] == open);
        lemma_strip_from_skip(s, open, close, min_gap, k + 1);
        assert(s.skip(k + 1) =~= q);
        assert(p + strip_markup(q, open, close, min_gap) =~= strip_markup(
            q,
            open,
            close,
            min_gap,
        ));
    } else {
        let rest = p.skip(1) + seq![open] + m + seq![close] + q;
        assert(s[0] == p[0]);
        assert(s[0] != open);
        lemma_strip_from_skip(s, open, close, min_gap, 1);
        assert(s.skip(1) =~= rest);
        lemma_strip_group(p.skip(1), m, q, open, close, min_gap);
        assert(seq![p[0]] + (p.skip(1) + strip_markup(q, open, close, min_gap)) =~= p
            + strip_markup(q, open, close, min_gap));
    }
}

/// Brace groups are removed independently: `p{m}q` cleans its brace layer to
/// `p` followed by the brace-stripped `q`, for any `p` without `{` and any
/// group body `m` without `}` (the body may be empty).
pub proof fn lemma_strip_brace_group(p: Seq<char>, m: Seq<char>, q: Seq<char>)
    requires
        forall|i: int| 0 <= i < p.len() ==> p[i] != '{',
        forall|i: int| 0 <= i < m.len() ==> m[i] != '}',
    ensures
        strip_markup(p + seq!['{'] + m + seq!['}'] + q, '{', '}', 1) == p + strip_markup(
            q,
            '{',
            '}',
            1,
        ),
{
    lemma_strip_group(p, m, q, '{', '}', 1);
}

/// An opening and a closing tag are both removed: `p<t1>m<t2>q` loses the
/// two tags, for tag names free of `>` and non-empty, and `p`, `m` free of
/// `<`.
pub proof fn lemma_strip_tag_pair(
    p: Seq<char>,
    t1: Seq<char>,
    m: Seq<char>,
    t2: Seq<char>,
    q: Seq<char>,
)
    requires
        forall|i: int| 0 <= i < p.len() ==> p[i] != '<',
        forall|i: int| 0 <= i < m.len() ==> m[i] != '<',
        forall|i: int| 0 <= i < t1.len() ==> t1[i] != '>',
        forall|i: int| 0 <= i < t2.len() ==> t2[i] != '>',
        t1.len() >= 1,
        t2.len() >= 1,
    ensures
        strip_markup(
            p + seq!['<'] + t1 + seq!['>'] + m + seq!['<'] + t2 + seq!['>'] + q,
            '<',
            '>',
            2,
        ) == p + m + strip_markup(q, '<', '>', 2),
{
    let inner = m + seq!['<'] + t2 + seq!['>'] + q;
    lemma_strip_group(p, t1, inner, '<', '>', 2);
    assert(p + seq!['<'] + t1 + seq!['>'] + m + seq!['<'] + t2 + seq!['>'] + q =~= p + seq!['<']
        + t1 + seq!['>'] + inner);
    lemma_strip_group(m, t2, q, '<', '>', 2);
    assert(p + (m + strip_markup(q, '<', '>', 2)) =~= p + m + strip_markup(q, '<', '>', 2));
}

/// Cleaning a cue of the form `p{m}q`, with no further markup present,
/// yields `p` concatenated with `q`, trimmed.
pub proof fn lemma_clean_brace_group(p: Seq<char>, m: Seq<char>, q: Seq<char>)
    requires
        forall|i: int| 0 <= i < p.len() ==> p[i] != '{' && p[i] != '<',
        forall|i: int| 0 <= i < q.len() ==> q[i] != '{' && q[i] != '<',
        forall|i: int| 0 <= i < m.len() ==> m[i] != '}',
    ensures
        spec_clean(p + seq!['{'] + m + seq!['}'] + q) == trim_spec(p + q),
{
    lemma_strip_brace_group(p, m, q);
    lemma_strip_no_open(q, '{', '}', 1);
    lemma_strip_no_open(p + q, '<', '>', 2);
    assert(forall|i: int| 0 <= i < (p + q).len() ==> (p + q)[i] != '<');
}

/// Cleaning a cue of the form `p<t1>m<t2>q`, with no further markup present,
/// yields `p`, `m` and `q` concatenated, trimmed: both tags are removed.
pub proof fn lemma_clean_tag_pair(
    p: Seq<char>,
    t1: Seq<char>,
    m: Seq<char>,
    t2: Seq<char>,
    q: Seq<char>,
)
    requires
        forall|i: int| 0 <= i < p.len() ==> p[i] != '<' && p[i] != '{',
        forall|i: int| 0 <= i < m.len() ==> m[i] != '<' && m[i] != '{',
        forall|i: int| 0 <= i < q.len() ==> q[i] != '<' && q[i] != '{',
        forall|i: int| 0 <= i < t1.len() ==> t1[i] != '>' && t1[i] != '{',
        forall|i: int| 0 <= i < t2.len() ==> t2[i] != '>' && t2[i] != '{',
        t1.len() >= 1,
        t2.len() >= 1,
    ensures
        spec_clean(p + seq!['<'] + t1 + seq!['>'] + m + seq!['<'] + t2 + seq!['>'] + q)
            == trim_spec(p + m + q),
{
    let s = p + seq!['<'] + t1 + seq!['>'] + m + seq!['<'] + t2 + seq!['>'] + q;
    assert(forall|i: int| 0 <= i < s.len() ==> s[i] != '{') by {
        assert('<' as u32 == 60 && '>' as u32 == 62 && '{' as u32 == 123);
        assert(forall|i: int| 0 <= i < s.len() ==> #[trigger] s[i] == '<' || s[i] == '>' || (
        exists|j: int| 0 <= j < p.len() && p[j] == s[i]) || (exists|j: int|
            0 <= j < m.len() && m[j] == s[i]) || (exists|j: int|
            0 <= j < q.len() && q[j] == s[i]) || (exists|j: int|
            0 <= j < t1.len() && t1[j] == s[i]) || (exists|j: int|
            0 <= j < t2.len() && t2[j] == s[i]));
    }
    lemma_strip_no_open(s, '{', '}', 1);
    lemma_strip_tag_pair(p, t1, m, t2, q);
    lemma_strip_no_open(q, '<', '>', 2);
    assert(p + m + strip_markup(q, '<', '>', 2) == p + m + q);
}

/// A cue that contains neither `{` nor `<` is cleaned by trimming alone.
pub proof fn lemma_clean_no_markup(s: Seq<char>)
    requires
        forall|i: int| 0 <= i < s.len() ==> s[i] != '{' && s[i] != '<',
    ensures
        spec_clean(s) == trim_spec(s),
{
    lemma_strip_no_open(s, '{', '}', 1);
    lemma_strip_no_open(s, '<', '>', 2);
}

/// Trimming a whitespace-only sequence leaves nothing.
pub proof fn lemma_trim_blank(s: Seq<char>)
    requires
        is_blank(s),
    ensures
        trim_spec(s).len() == 0,
    decreases s.len(),
{
    if s.len() == 0 {
    } else {
        lemma_trim_blank(s.skip(1));
    }
}

/// A whitespace-only cue cleans to the empty sequence.
pub proof fn lemma_blank_cleans_to_empty(s: Seq<char>)
    requires
        is_blank(s),
    ensures
        spec_clean(s).len() == 0,
{
    assert(forall|i: int| 0 <= i < s.len() ==> s[i] != '{' && s[i] != '<') by {
        assert('{' as u32 == 123 && '<' as u32 == 60);
    }
    lemma_clean_no_markup(s);
    lemma_trim_blank(s);
}

/// Strips brace groups, then angle-bracket tags, then trims whitespace: the
/// cleaned form of a cue, ready for language classification.
pub fn clean_text(text: &str) -> (r: String)
    ensures
        r@ == spec_clean(text@),
{
    let chars = str_to_chars(text);
    let no_braces = strip_markup_chars(&chars, '{', '}', 1);
    let no_tags = strip_markup_chars(&no_braces, '<', '>', 2);
    let trimmed = trim_chars(&no_tags);
    chars_to_string(&trimmed)
}

} // verus!

