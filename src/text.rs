//! Character-level text helpers: whitespace, prefix spans, trimming and
//! line splitting, each stated over `Seq<char>` and implemented by index
//! scans over a character vector.
use vstd::prelude::*;
use vstd::std_specs::iter::IteratorSpec;

verus! {

/// The Unicode `White_Space` property, which `char::is_whitespace` follows.
pub open spec fn is_space(c: char) -> bool {
    let u = c as u32;
    (9 <= u && u <= 13) || u == 32 || u == 0x85 || u == 0xa0 || u == 0x1680 || (0x2000 <= u
        && u <= 0x200a) || u == 0x2028 || u == 0x2029 || u == 0x202f || u == 0x205f || u
        == 0x3000
}

/// Length of the longest prefix of `s` whose elements all satisfy `p`.
pub open spec fn span<A>(s: Seq<A>, p: spec_fn(A) -> bool) -> nat
    decreases s.len(),
{
    if s.len() > 0 && p(s[0]) {
        1 + span(s.drop_first(), p)
    } else {
        0
    }
}

/// Length of the longest suffix of `s` made of whitespace.
pub open spec fn trailing_space(s: Seq<char>) -> nat
    decreases s.len(),
{
    if s.len() > 0 && is_space(s.last()) {
        1 + trailing_space(s.drop_last())
    } else {
        0
    }
}

/// Holds of a whitespace character.
pub open spec fn space_pred() -> spec_fn(char) -> bool {
    |c: char| is_space(c)
}

/// Holds of a character that is not whitespace.
pub open spec fn word_pred() -> spec_fn(char) -> bool {
    |c: char| !is_space(c)
}

/// Holds of a character other than `\n`.
pub open spec fn not_newline_pred() -> spec_fn(char) -> bool {
    |c: char| c != '\n'
}

/// Number of leading whitespace characters.
pub open spec fn leading_space(s: Seq<char>) -> nat {
    span(s, space_pred())
}

/// Length of the leading run of non-whitespace characters.
pub open spec fn word_len(s: Seq<char>) -> nat {
    span(s, word_pred())
}

/// `s` without leading and trailing whitespace, as `str::trim` gives it.
pub open spec fn trim(s: Seq<char>) -> Seq<char> {
    let t = s.skip(leading_space(s) as int);
    t.take(t.len() - trailing_space(t))
}

/// A line with one carriage return at its end removed.
pub open spec fn strip_cr(l: Seq<char>) -> Seq<char> {
    if l.len() > 0 && l.last() == '\r' {
        l.drop_last()
    } else {
        l
    }
}

/// The lines of `s`, as `str::lines` gives them: split at each `\n`, a `\r`
/// right before a `\n` removed, and no empty line after a final `\n`.
pub open spec fn lines_of(s: Seq<char>) -> Seq<Seq<char>>
    decreases s.len(),
{
    if s.len() == 0 {
        seq![]
    } else {
        let e = span(s, not_newline_pred());
        if e < s.len() {
            seq![strip_cr(s.take(e as int))] + lines_of(s.skip(e as int + 1))
        } else {
            seq![s]
        }
    }
}

/// The views of a sequence of strings.
pub open spec fn views(v: Seq<String>) -> Seq<Seq<char>> {
    v.map_values(|x: String| x@)
}

/// `span` is the one length `n` such that the first `n` elements satisfy
/// `p` and element `n`, if any, does not.
pub proof fn lemma_span_exact<A>(s: Seq<A>, p: spec_fn(A) -> bool, n: int)
    requires
        0 <= n <= s.len(),
        forall|k: int| 0 <= k < n ==> p(#[trigger] s[k]),
        n == s.len() || !p(s[n]),
    ensures
        span(s, p) == n,
    decreases n,
{
    if n > 0 {
        let t = s.drop_first();
        assert forall|k: int| 0 <= k < n - 1 implies p(#[trigger] t[k]) by {
            assert(t[k] == s[k + 1]);
        }
        if n - 1 < t.len() {
            assert(t[n - 1] == s[n]);
        }
        lemma_span_exact(t, p, n - 1);
    }
}

/// `trailing_space` is the one length `n` such that the last `n`
/// characters are whitespace and the one before them, if any, is not.
pub proof fn lemma_trailing_space_exact(s: Seq<char>, n: int)
    requires
        0 <= n <= s.len(),
        forall|k: int| s.len() - n <= k < s.len() ==> is_space(#[trigger] s[k]),
        n == s.len() || !is_space(s[s.len() - n - 1]),
    ensures
        trailing_space(s) == n,
    decreases n,
{
    if n > 0 {
        let t = s.drop_last();
        assert forall|k: int| t.len() - (n - 1) <= k < t.len() implies is_space(#[trigger] t[k]) by {
            assert(t[k] == s[k]);
        }
        if n - 1 < t.len() {
            assert(t[t.len() - (n - 1) - 1] == s[s.len() - n - 1]);
        }
        lemma_trailing_space_exact(t, n - 1);
    }
}

/// Whether `c` is whitespace.
pub fn is_space_char(c: char) -> (r: bool)
    ensures
        r == is_space(c),
{
    let u = c as u32;
    (9 <= u && u <= 13) || u == 32 || u == 0x85 || u == 0xa0 || u == 0x1680 || (0x2000 <= u
        && u <= 0x200a) || u == 0x2028 || u == 0x2029 || u == 0x202f || u == 0x205f || u
        == 0x3000
}

/// The characters of `s`, in order.
pub fn chars_of(s: &str) -> (v: Vec<char>)
    ensures
        v@ == s@,
{
    broadcast use vstd::string::group_string_axioms;

    let mut it = s.chars();
    let mut v: Vec<char> = Vec::new();
    assert(s@.skip(0) =~= s@);
    loop
        invariant
            IteratorSpec::remaining(&it) == s@.skip(v@.len() as int),
            v@ == s@.take(v@.len() as int),
            v@.len() <= s@.len(),
        ensures
            v@ == s@,
        decreases s@.len() - v@.len(),
    {
        let ghost before = v@;
        match it.next() {
            Some(c) => {
                v.push(c);
                assert(s@.skip(before.len() as int).drop_first() =~= s@.skip(v@.len() as int));
                assert(v@ =~= s@.take(v@.len() as int));
            },
            None => {
                assert(v@ =~= s@);
                break;
            },
        }
    }
    v
}

/// End of the whitespace run of `v` that starts at `from`, before `to`.
pub fn skip_spaces(v: &Vec<char>, from: usize, to: usize) -> (j: usize)
    requires
        from <= to <= v@.len(),
    ensures
        j == from + leading_space(v@.subrange(from as int, to as int)),
        j <= to,
{
    let mut j = from;
    while j < to && is_space_char(v[j])
        invariant
            from <= j <= to <= v@.len(),
            forall|k: int| from <= k < j ==> is_space(#[trigger] v@[k]),
        decreases to - j,
    {
        j = j + 1;
    }
    proof {
        let s = v@.subrange(from as int, to as int);
        assert forall|k: int| 0 <= k < j - from implies (#[trigger] space_pred()(s[k])) by {
            assert(s[k] == v@[from + k]);
        }
        if j < to {
            assert(s[j - from] == v@[j as int]);
        }
        lemma_span_exact(s, space_pred(), j - from);
    }
    j
}

/// End of the non-whitespace run of `v` that starts at `from`, before `to`.
pub fn skip_word(v: &Vec<char>, from: usize, to: usize) -> (j: usize)
    requires
        from <= to <= v@.len(),
    ensures
        j == from + word_len(v@.subrange(from as int, to as int)),
        j <= to,
{
    let mut j = from;
    while j < to && !is_space_char(v[j])
        invariant
            from <= j <= to <= v@.len(),
            forall|k: int| from <= k < j ==> !is_space(#[trigger] v@[k]),
        decreases to - j,
    {
        j = j + 1;
    }
    proof {
        let s = v@.subrange(from as int, to as int);
        assert forall|k: int| 0 <= k < j - from implies (#[trigger] word_pred()(s[k])) by {
            assert(s[k] == v@[from + k]);
        }
        if j < to {
            assert(s[j - from] == v@[j as int]);
        }
        lemma_span_exact(s, word_pred(), j - from);
    }
    j
}

/// Start of the whitespace run of `v` that ends at `to`, after `from`.
pub fn back_spaces(v: &Vec<char>, from: usize, to: usize) -> (j: usize)
    requires
        from <= to <= v@.len(),
    ensures
        j == to - trailing_space(v@.subrange(from as int, to as int)),
        from <= j,
{
    let mut j = to;
    while j > from && is_space_char(v[j - 1])
        invariant
            from <= j <= to <= v@.len(),
            forall|k: int| j <= k < to ==> is_space(#[trigger] v@[k]),
        decreases j - from,
    {
        j = j - 1;
    }
    proof {
        let s = v@.subrange(from as int, to as int);
        let n = to - j;
        assert forall|k: int| s.len() - n <= k < s.len() implies is_space(#[trigger] s[k]) by {
            assert(s[k] == v@[from + k]);
        }
        if n < s.len() {
            assert(s[s.len() - n - 1] == v@[j - 1]);
        }
        lemma_trailing_space_exact(s, n);
    }
    j
}

/// Position of the first `\n` in `v` at or after `from`, or the length.
pub fn find_newline(v: &Vec<char>, from: usize) -> (j: usize)
    requires
        from <= v@.len(),
    ensures
        j == from + span(v@.skip(from as int), not_newline_pred()),
        j <= v@.len(),
{
    let mut j = from;
    while j < v.len() && v[j] != '\n'
        invariant
            from <= j <= v@.len(),
            forall|k: int| from <= k < j ==> #[trigger] v@[k] != '\n',
        decreases v@.len() - j,
    {
        j = j + 1;
    }
    proof {
        let s = v@.skip(from as int);
        assert forall|k: int| 0 <= k < j - from implies (#[trigger] not_newline_pred()(s[k])) by {
            assert(s[k] == v@[from + k]);
        }
        if j < v@.len() {
            assert(s[j - from] == v@[j as int]);
        }
        lemma_span_exact(s, not_newline_pred(), j - from);
    }
    j
}

/// The text of `v` between `from` and `to`, as a new string.
pub fn text_between(text: &str, from: usize, to: usize) -> (r: String)
    requires
        from <= to <= text@.len(),
    ensures
        r@ == text@.subrange(from as int, to as int),
{
    text.substring_char(from, to).to_owned()
}

/// The lines of `text`.
pub fn split_lines(text: &str) -> (r: Vec<String>)
    ensures
        views(r@) == lines_of(text@),
{
    let v = chars_of(text);
    let n = v.len();
    let mut r: Vec<String> = Vec::new();
    let mut pos: usize = 0;
    assert(text@.skip(0) =~= text@);
    assert(views(r@) =~= seq![]);
    while pos < n
        invariant
            n == v@.len(),
            v@ == text@,
            pos <= n,
            views(r@) + lines_of(text@.skip(pos as int)) == lines_of(text@),
        decreases n - pos,
    {
        let ghost s = text@.skip(pos as int);
        let ghost old_r = r@;
        let e = find_newline(&v, pos);
        assert(v@.skip(pos as int) == s);
        if e < n {
            let end = if e > pos && v[e - 1] == '\r' {
                e - 1
            } else {
                e
            };
            let line = text_between(text, pos, end);
            proof {
                assert(s.take(e - pos) =~= text@.subrange(pos as int, e as int));
                assert(s.skip(e - pos + 1) =~= text@.skip(e + 1));
                assert(line@ =~= strip_cr(s.take(e - pos)));
                assert(lines_of(s) == seq![line@] + lines_of(text@.skip(e + 1)));
            }
            r.push(line);
            pos = e + 1;
        } else {
            let line = text_between(text, pos, n);
            proof {
                assert(line@ =~= s);
                assert(text@.skip(n as int) =~= seq![]);
                assert(lines_of(s) == seq![line@]);
            }
            r.push(line);
            pos = n;
        }
        proof {
            assert(views(r@) =~= views(old_r).push(r@.last()@));
        }
        assert(views(r@) + lines_of(text@.skip(pos as int)) =~= lines_of(text@));
    }
    proof {
        assert(text@.skip(n as int) =~= seq![]);
        assert(views(r@) + lines_of(seq![]) =~= views(r@));
    }
    r
}

} // verus!
