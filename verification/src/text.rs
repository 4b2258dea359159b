//! Character-sequence vocabulary shared by the rest of the crate, together
//! with the executable conversions between strings and character vectors.
use vstd::prelude::*;

verus! {

/// Appends one character to a string.
///
/// Trusted: stands for `String::push`, which is documented to append the
/// given character to the end of the string.
#[verifier::external_body]
pub(crate) fn push_char(s: &mut String, c: char)
    ensures
        final(s)@ == old(s)@.push(c),
{
    s.push(c)
}

/// The characters of `s`, in order.
pub fn chars_of(s: &str) -> (v: Vec<char>)
    ensures
        v@ == s@,
{
    let mut v: Vec<char> = Vec::new();
    for c in it: s.chars()
        invariant
            v@ == it.seq().take(it.index() as int),
            it.seq() == s@,
    {
        v.push(c);
    }
    v
}

/// The string spelled by `v`.
pub fn string_of(v: &Vec<char>) -> (s: String)
    ensures
        s@ == v@,
{
    let s = string_of_range(v, 0, v.len());
    assert(v@.subrange(0, v.len() as int) == v@);
    s
}

/// `s` with every occurrence of `from` replaced by `to`.
pub open spec fn replace_char(s: Seq<char>, from: char, to: char) -> Seq<char> {
    Seq::new(s.len(), |i: int| if s[i] == from { to } else { s[i] })
}

/// The predicate that holds of every character but `c`.
pub open spec fn other_than(c: char) -> spec_fn(char) -> bool {
    |x: char| x != c
}

/// `s` without the occurrences of `c`.
pub open spec fn remove_char(s: Seq<char>, c: char) -> Seq<char> {
    s.filter(other_than(c))
}

/// Whether `prefix` spells the beginning of `s`.
pub open spec fn starts_with(s: Seq<char>, prefix: Seq<char>) -> bool {
    prefix.len() <= s.len() && s.take(prefix.len() as int) == prefix
}

/// `n` spaces.
pub open spec fn spaces(n: nat) -> Seq<char> {
    Seq::new(n, |i: int| ' ')
}

/// Replaces every `from` in `v` by `to`.
pub fn replace_char_in(v: &Vec<char>, from: char, to: char) -> (r: Vec<char>)
    ensures
        r@ == replace_char(v@, from, to),
{
    let mut r: Vec<char> = Vec::new();
    let mut i: usize = 0;
    while i < v.len()
        invariant
            i <= v.len(),
            r@ == replace_char(v@, from, to).take(i as int),
        decreases v.len() - i,
    {
        let c = v[i];
        r.push(if c == from { to } else { c });
        i += 1;
    }
    r
}

/// Drops every `c` from `v`.
pub fn remove_char_in(v: &Vec<char>, c: char) -> (r: Vec<char>)
    ensures
        r@ == remove_char(v@, c),
{
    let mut r: Vec<char> = Vec::new();
    let mut i: usize = 0;
    proof {
        reveal(Seq::filter);
    }
    while i < v.len()
        invariant
            i <= v.len(),
            r@ == v@.take(i as int).filter(other_than(c)),
        decreases v.len() - i,
    {
        proof {
            reveal(Seq::filter);
            assert(v@.take(i + 1).drop_last() == v@.take(i as int));
        }
        if v[i] != c {
            r.push(v[i]);
        }
        i += 1;
    }
    assert(v@.take(i as int) == v@);
    r
}

/// What `char::is_whitespace` answers for a character outside the ASCII
/// range: whether it has the Unicode property `White_Space`.
pub uninterp spec fn unicode_white_space(c: char) -> bool;

/// Whether `c` is white space: a space or one of U+0009 to U+000D in the
/// ASCII range, `White_Space` beyond it.
pub open spec fn is_whitespace(c: char) -> bool {
    if c <= '\u{7f}' {
        c == ' ' || ('\t' <= c && c <= '\r')
    } else {
        unicode_white_space(c)
    }
}

/// Tests a character for white space.
///
/// Trusted: stands for `char::is_whitespace`, which is documented to tell
/// whether the character has the property `White_Space` of the Unicode
/// character database. In the ASCII range that property holds of the
/// space and of U+0009 to U+000D only; beyond it the answer is left
/// unstated and only named.
#[verifier::external_body]
pub(crate) fn char_is_whitespace(c: char) -> (b: bool)
    ensures
        b == if c <= '\u{7f}' {
            c == ' ' || ('\t' <= c && c <= '\r')
        } else {
            unicode_white_space(c)
        },
{
    c.is_whitespace()
}

/// `s` without its trailing white space.
pub open spec fn trim_end(s: Seq<char>) -> Seq<char>
    decreases s.len(),
{
    if s.len() > 0 && is_whitespace(s.last()) {
        trim_end(s.drop_last())
    } else {
        s
    }
}

/// `s` without its leading white space.
pub open spec fn trim_start(s: Seq<char>) -> Seq<char>
    decreases s.len(),
{
    if s.len() > 0 && is_whitespace(s.first()) {
        trim_start(s.drop_first())
    } else {
        s
    }
}

/// How many times `c` stands at the beginning of `s` before any other
/// character.
pub open spec fn leading_run(s: Seq<char>, c: char) -> nat
    decreases s.len(),
{
    if s.len() > 0 && s.first() == c {
        1 + leading_run(s.drop_first(), c)
    } else {
        0
    }
}

/// `trim_end` cuts at `k` when everything from `k` on is white space and
/// the character before `k`, if any, is not.
pub proof fn lemma_trim_end_cut(s: Seq<char>, k: int)
    requires
        0 <= k <= s.len(),
        forall|i: int| k <= i < s.len() ==> is_whitespace(#[trigger] s[i]),
        k > 0 ==> !is_whitespace(s[k - 1]),
    ensures
        trim_end(s) == s.take(k),
    decreases s.len() - k,
{
    if k == s.len() {
        assert(s.take(k) == s);
    } else {
        lemma_trim_end_cut(s.drop_last(), k);
        assert(s.drop_last().take(k) == s.take(k));
    }
}

/// `trim_start` cuts at `k` when everything before `k` is white space and
/// the character at `k`, if any, is not.
pub proof fn lemma_trim_start_cut(s: Seq<char>, k: int)
    requires
        0 <= k <= s.len(),
        forall|i: int| 0 <= i < k ==> is_whitespace(#[trigger] s[i]),
        k < s.len() ==> !is_whitespace(s[k]),
    ensures
        trim_start(s) == s.skip(k),
    decreases k,
{
    if k == 0 {
        assert(s.skip(0) == s);
    } else {
        let rest = s.drop_first();
        assert forall|i: int| 0 <= i < k - 1 implies is_whitespace(#[trigger] rest[i]) by {
            assert(rest[i] == s[i + 1]);
        }
        lemma_trim_start_cut(rest, k - 1);
        assert(rest.skip(k - 1) == s.skip(k));
    }
}

/// The leading run of `c` has length `k` when `c` fills the first `k`
/// places and the character at `k`, if any, is another.
pub proof fn lemma_leading_run_is(s: Seq<char>, c: char, k: int)
    requires
        0 <= k <= s.len(),
        forall|i: int| 0 <= i < k ==> #[trigger] s[i] == c,
        k < s.len() ==> s[k] != c,
    ensures
        leading_run(s, c) == k,
    decreases k,
{
    if k > 0 {
        let rest = s.drop_first();
        assert forall|i: int| 0 <= i < k - 1 implies #[trigger] rest[i] == c by {
            assert(rest[i] == s[i + 1]);
        }
        lemma_leading_run_is(rest, c, k - 1);
    }
}

/// `trim_end` keeps a beginning of `s` that does not end in white space,
/// and cuts white space only.
pub proof fn lemma_trim_end_props(s: Seq<char>)
    ensures
        trim_end(s).len() <= s.len(),
        trim_end(s) == s.take(trim_end(s).len() as int),
        forall|i: int| trim_end(s).len() <= i < s.len() ==> is_whitespace(#[trigger] s[i]),
        trim_end(s).len() > 0 ==> !is_whitespace(trim_end(s).last()),
    decreases s.len(),
{
    if s.len() > 0 && is_whitespace(s.last()) {
        let rest = s.drop_last();
        lemma_trim_end_props(rest);
        let k = trim_end(rest).len() as int;
        assert(rest.take(k) == s.take(k));
        assert forall|i: int| k <= i < s.len() implies is_whitespace(#[trigger] s[i]) by {
            if i < rest.len() {
                assert(rest[i] == s[i]);
            }
        }
    } else {
        assert(s.take(s.len() as int) == s);
    }
}

/// The leading run of `c` fills its places with `c` and ends before
/// another character or at the end of `s`.
pub proof fn lemma_leading_run_props(s: Seq<char>, c: char)
    ensures
        leading_run(s, c) <= s.len(),
        forall|i: int| 0 <= i < leading_run(s, c) ==> #[trigger] s[i] == c,
        leading_run(s, c) < s.len() ==> s[leading_run(s, c) as int] != c,
    decreases s.len(),
{
    if s.len() > 0 && s.first() == c {
        let rest = s.drop_first();
        lemma_leading_run_props(rest, c);
        assert forall|i: int| 0 <= i < leading_run(s, c) implies #[trigger] s[i] == c by {
            if i > 0 {
                assert(rest[i - 1] == s[i]);
            }
        }
    }
}

/// The length of `v` once its trailing white space is cut.
pub fn trimmed_len(v: &Vec<char>) -> (k: usize)
    ensures
        k <= v.len(),
        trim_end(v@) == v@.take(k as int),
{
    let mut k: usize = v.len();
    while k > 0 && char_is_whitespace(v[k - 1])
        invariant
            k <= v.len(),
            forall|i: int| k <= i < v.len() ==> is_whitespace(#[trigger] v@[i]),
        decreases k,
    {
        k -= 1;
    }
    proof {
        lemma_trim_end_cut(v@, k as int);
    }
    k
}

/// The first place at or after `from`, and before `to`, that holds no
/// white space; `to` if there is none.
pub fn skip_whitespace(v: &Vec<char>, from: usize, to: usize) -> (k: usize)
    requires
        from <= to <= v.len(),
    ensures
        from <= k <= to,
        trim_start(v@.subrange(from as int, to as int)) == v@.subrange(k as int, to as int),
{
    let mut k: usize = from;
    while k < to && char_is_whitespace(v[k])
        invariant
            from <= k <= to <= v.len(),
            forall|i: int| from <= i < k ==> is_whitespace(#[trigger] v@[i]),
        decreases to - k,
    {
        k += 1;
    }
    proof {
        let part = v@.subrange(from as int, to as int);
        assert forall|i: int| 0 <= i < k - from implies is_whitespace(#[trigger] part[i]) by {
            assert(part[i] == v@[from + i]);
        }
        lemma_trim_start_cut(part, k - from);
        assert(part.skip(k - from) == v@.subrange(k as int, to as int));
    }
    k
}

/// How many times `c` stands at the beginning of the first `to` characters
/// of `v`.
pub fn leading_count(v: &Vec<char>, c: char, to: usize) -> (k: usize)
    requires
        to <= v.len(),
    ensures
        k <= to,
        k == leading_run(v@.take(to as int), c),
{
    let mut k: usize = 0;
    while k < to && v[k] == c
        invariant
            k <= to <= v.len(),
            forall|i: int| 0 <= i < k ==> #[trigger] v@[i] == c,
        decreases to - k,
    {
        k += 1;
    }
    proof {
        lemma_leading_run_is(v@.take(to as int), c, k as int);
    }
    k
}

/// The string spelled by the characters of `v` from `from` up to `to`.
pub fn string_of_range(v: &Vec<char>, from: usize, to: usize) -> (s: String)
    requires
        from <= to <= v.len(),
    ensures
        s@ == v@.subrange(from as int, to as int),
{
    let mut s = String::new();
    let mut i: usize = from;
    while i < to
        invariant
            from <= i <= to <= v.len(),
            s@ == v@.subrange(from as int, i as int),
        decreases to - i,
    {
        push_char(&mut s, v[i]);
        i += 1;
    }
    s
}

/// `s` without `prefix` at its beginning; `s` itself where it does not
/// begin with `prefix`.
pub open spec fn without_prefix(s: Seq<char>, prefix: Seq<char>) -> Seq<char> {
    if starts_with(s, prefix) {
        s.skip(prefix.len() as int)
    } else {
        s
    }
}

/// Tells whether `v` begins with `k` spaces.
pub fn begins_with_spaces(v: &Vec<char>, k: usize) -> (b: bool)
    ensures
        b == starts_with(v@, spaces(k as nat)),
{
    if k > v.len() {
        return false;
    }
    let mut i: usize = 0;
    while i < k && v[i] == ' '
        invariant
            i <= k <= v.len(),
            forall|t: int| 0 <= t < i ==> #[trigger] v@[t] == ' ',
        decreases k - i,
    {
        i += 1;
    }
    proof {
        if i == k {
            assert(v@.take(k as int) == spaces(k as nat));
        } else {
            assert(v@.take(k as int)[i as int] != spaces(k as nat)[i as int]);
        }
    }
    i == k
}

/// The place of the first `c` in `s`; the length of `s` where it holds
/// none.
pub open spec fn first_index(s: Seq<char>, c: char) -> nat
    decreases s.len(),
{
    if s.len() > 0 && s.first() != c {
        1 + first_index(s.drop_first(), c)
    } else {
        0
    }
}

/// The first `c` stands at `k` when no place before `k` holds one and the
/// place `k`, if there is one, does.
pub proof fn lemma_first_index_is(s: Seq<char>, c: char, k: int)
    requires
        0 <= k <= s.len(),
        forall|i: int| 0 <= i < k ==> #[trigger] s[i] != c,
        k < s.len() ==> s[k] == c,
    ensures
        first_index(s, c) == k,
    decreases k,
{
    if k > 0 {
        let rest = s.drop_first();
        assert forall|i: int| 0 <= i < k - 1 implies #[trigger] rest[i] != c by {
            assert(rest[i] == s[i + 1]);
        }
        lemma_first_index_is(rest, c, k - 1);
    }
}

/// `line` without one carriage return at its end.
pub open spec fn strip_cr(line: Seq<char>) -> Seq<char> {
    if line.len() > 0 && line.last() == '\r' {
        line.drop_last()
    } else {
        line
    }
}

/// The lines of a text. A line ends at a line feed, which is left out
/// together with a carriage return right before it; what follows the last
/// line feed is a line of its own unless it is empty.
pub open spec fn lines_of(s: Seq<char>) -> Seq<Seq<char>>
    decreases s.len(),
{
    if s.len() == 0 {
        Seq::empty()
    } else {
        let n = first_index(s, '\n') as int;
        if n < s.len() {
            seq![strip_cr(s.take(n))] + lines_of(s.skip(n + 1))
        } else {
            seq![s]
        }
    }
}

/// The character sequences held by a sequence of vectors.
pub open spec fn char_seqs(lines: Seq<Vec<char>>) -> Seq<Seq<char>> {
    lines.map_values(|l: Vec<char>| l@)
}

/// The character sequences spelled by a sequence of strings.
pub open spec fn string_seqs(lines: Seq<String>) -> Seq<Seq<char>> {
    lines.map_values(|l: String| l@)
}

/// The characters of `v` from `from` up to `to`.
pub fn copy_range(v: &Vec<char>, from: usize, to: usize) -> (r: Vec<char>)
    requires
        from <= to <= v.len(),
    ensures
        r@ == v@.subrange(from as int, to as int),
{
    let mut r: Vec<char> = Vec::new();
    let mut i: usize = from;
    while i < to
        invariant
            from <= i <= to <= v.len(),
            r@ == v@.subrange(from as int, i as int),
        decreases to - i,
    {
        r.push(v[i]);
        i += 1;
    }
    r
}

/// Splits a text into its lines.
pub fn split_lines(v: &Vec<char>) -> (lines: Vec<Vec<char>>)
    ensures
        char_seqs(lines@) == lines_of(v@),
{
    let mut lines: Vec<Vec<char>> = Vec::new();
    let mut pos: usize = 0;
    assert(v@.skip(0) == v@);
    while pos < v.len()
        invariant
            pos <= v.len(),
            lines_of(v@) == char_seqs(lines@) + lines_of(v@.skip(pos as int)),
        decreases v.len() - pos,
    {
        let ghost rest = v@.skip(pos as int);
        let ghost before = char_seqs(lines@);
        let mut end: usize = pos;
        while end < v.len() && v[end] != '\n'
            invariant
                pos <= end <= v.len(),
                forall|t: int| pos <= t < end ==> #[trigger] v@[t] != '\n',
            decreases v.len() - end,
        {
            end += 1;
        }
        proof {
            assert forall|i: int| 0 <= i < end - pos implies #[trigger] rest[i] != '\n' by {
                assert(rest[i] == v@[pos + i]);
            }
            lemma_first_index_is(rest, '\n', end - pos);
        }
        if end == v.len() {
            let line = copy_range(v, pos, end);
            lines.push(line);
            proof {
                assert(line@ == rest);
                assert(lines_of(rest) == seq![rest]);
                assert(lines_of(v@.skip(end as int)) == Seq::<Seq<char>>::empty());
                assert(char_seqs(lines@) == before + seq![rest]);
            }
            pos = end;
        } else {
            let stop: usize = if end > pos && v[end - 1] == '\r' {
                end - 1
            } else {
                end
            };
            let line = copy_range(v, pos, stop);
            lines.push(line);
            proof {
                let whole = rest.take(end - pos);
                assert(whole == v@.subrange(pos as int, end as int));
                assert(line@ == strip_cr(whole));
                assert(rest.skip(end - pos + 1) == v@.skip(end + 1));
                assert(lines_of(rest) == seq![strip_cr(whole)] + lines_of(v@.skip(end + 1)));
                assert(char_seqs(lines@) == before + seq![line@]);
            }
            pos = end + 1;
        }
    }
    lines
}

} // verus!
