//! Text as sequences of characters: trimming, splitting and joining.
//!
//! The specifications speak of `Seq<char>`, the view of `str` and `String`.
//! The executable functions take and return ordinary strings.

use vstd::prelude::*;
use vstd::string::*;

verus! {

/// Whether `c` counts as white space when a line is trimmed: the characters
/// with the Unicode property `White_Space`.
pub open spec fn is_whitespace(c: char) -> bool {
    let n = c as u32;
    ||| 0x09 <= n <= 0x0d
    ||| n == 0x20
    ||| n == 0x85
    ||| n == 0xa0
    ||| n == 0x1680
    ||| 0x2000 <= n <= 0x200a
    ||| n == 0x2028
    ||| n == 0x2029
    ||| n == 0x202f
    ||| n == 0x205f
    ||| n == 0x3000
}

/// `s` without its leading white space.
pub open spec fn trimmed_start(s: Seq<char>) -> Seq<char>
    decreases s.len(),
{
    if s.len() > 0 && is_whitespace(s.first()) {
        trimmed_start(s.drop_first())
    } else {
        s
    }
}

/// `s` without its trailing white space.
pub open spec fn trimmed_end(s: Seq<char>) -> Seq<char>
    decreases s.len(),
{
    if s.len() > 0 && is_whitespace(s.last()) {
        trimmed_end(s.drop_last())
    } else {
        s
    }
}

/// `s` without its leading and trailing white space.
pub open spec fn trimmed(s: Seq<char>) -> Seq<char> {
    trimmed_end(trimmed_start(s))
}

/// The number of characters of `s` before the first `sep`, or the length of
/// `s` when it holds no `sep`.
pub open spec fn span(s: Seq<char>, sep: char) -> nat
    decreases s.len(),
{
    if s.len() == 0 || s.first() == sep {
        0
    } else {
        1 + span(s.drop_first(), sep)
    }
}

/// The pieces of `s` between the occurrences of `sep`, in order. Every
/// occurrence separates: two in a row, or one at either end, give an empty
/// piece, and a sequence without `sep` is one piece, itself.
pub open spec fn fields(s: Seq<char>, sep: char) -> Seq<Seq<char>>
    decreases s.len(),
{
    let n = span(s, sep) as int;
    if n >= s.len() {
        seq![s]
    } else {
        seq![s.take(n)] + fields(s.skip(n + 1), sep)
    }
}

/// The concatenation of `parts` with `sep` between each two neighbours.
pub open spec fn joined(parts: Seq<Seq<char>>, sep: Seq<char>) -> Seq<char>
    decreases parts.len(),
{
    if parts.len() == 0 {
        Seq::empty()
    } else if parts.len() == 1 {
        parts.first()
    } else {
        joined(parts.drop_last(), sep) + sep + parts.last()
    }
}

/// `span` is the position of the first `sep`: nothing before it is `sep`,
/// and what stands at it is, unless it is the end.
pub proof fn lemma_span_first(s: Seq<char>, sep: char)
    ensures
        span(s, sep) <= s.len(),
        forall|i: int| 0 <= i < span(s, sep) ==> s[i] != sep,
        span(s, sep) < s.len() ==> s[span(s, sep) as int] == sep,
    decreases s.len(),
{
    if s.len() > 0 && s.first() != sep {
        let t = s.drop_first();
        lemma_span_first(t, sep);
        assert forall|i: int| 0 <= i < span(s, sep) implies s[i] != sep by {
            if i > 0 {
                assert(s[i] == t[i - 1]);
            }
        }
    }
}

/// A position `n` with no `sep` before it, which is the end of `s` or holds
/// `sep`, is the span of `s`.
pub proof fn lemma_span_is(s: Seq<char>, sep: char, n: int)
    requires
        0 <= n <= s.len(),
        forall|i: int| 0 <= i < n ==> s[i] != sep,
        n < s.len() ==> s[n] == sep,
    ensures
        span(s, sep) == n,
    decreases s.len(),
{
    if n > 0 {
        let t = s.drop_first();
        assert forall|i: int| 0 <= i < n - 1 implies t[i] != sep by {
            assert(t[i] == s[i + 1]);
        }
        lemma_span_is(t, sep, n - 1);
    }
}

/// What trimming at the start takes away: a number of characters, all of
/// them white space, and what follows them is not.
pub proof fn lemma_trimmed_start(s: Seq<char>) -> (from: int)
    ensures
        0 <= from <= s.len(),
        trimmed_start(s) == s.skip(from),
        forall|i: int| 0 <= i < from ==> is_whitespace(s[i]),
        from < s.len() ==> !is_whitespace(s[from]),
    decreases s.len(),
{
    if s.len() > 0 && is_whitespace(s.first()) {
        let rest = s.drop_first();
        let inner = lemma_trimmed_start(rest);
        assert(rest.skip(inner) =~= s.skip(inner + 1));
        assert forall|i: int| 0 <= i < inner + 1 implies is_whitespace(s[i]) by {
            if i > 0 {
                assert(s[i] == rest[i - 1]);
            }
        }
        inner + 1
    } else {
        assert(s.skip(0) =~= s);
        0
    }
}

/// What trimming at the end leaves: the characters up to a position, the
/// last of them no white space, and all that follow it are.
pub proof fn lemma_trimmed_end(s: Seq<char>) -> (to: int)
    ensures
        0 <= to <= s.len(),
        trimmed_end(s) == s.take(to),
        forall|i: int| to <= i < s.len() ==> is_whitespace(s[i]),
        to > 0 ==> !is_whitespace(s[to - 1]),
    decreases s.len(),
{
    if s.len() > 0 && is_whitespace(s.last()) {
        let rest = s.drop_last();
        let inner = lemma_trimmed_end(rest);
        assert(rest.take(inner) =~= s.take(inner));
        assert forall|i: int| inner <= i < s.len() implies is_whitespace(s[i]) by {
            if i < s.len() - 1 {
                assert(s[i] == rest[i]);
            }
        }
        inner
    } else {
        assert(s.take(s.len() as int) =~= s);
        s.len() as int
    }
}

/// Trimming cuts a piece out of the sequence: what stands before the piece
/// and after it is white space, and the piece neither begins nor ends with
/// white space.
pub proof fn lemma_trimmed(s: Seq<char>) -> (bounds: (int, int))
    ensures
        0 <= bounds.0 <= bounds.1 <= s.len(),
        trimmed(s) == s.subrange(bounds.0, bounds.1),
        forall|i: int| 0 <= i < bounds.0 || bounds.1 <= i < s.len() ==> is_whitespace(s[i]),
        trimmed(s).len() > 0 ==> !is_whitespace(trimmed(s).first()) && !is_whitespace(
            trimmed(s).last(),
        ),
{
    let from = lemma_trimmed_start(s);
    let rest = s.skip(from);
    let to = lemma_trimmed_end(rest);
    assert(rest.take(to) =~= s.subrange(from, from + to));
    assert forall|i: int| 0 <= i < from || from + to <= i < s.len() implies is_whitespace(
        s[i],
    ) by {
        if i >= from + to {
            assert(s[i] == rest[i - from]);
        }
    }
    if to > 0 {
        assert(rest[to - 1] == s[from + to - 1]);
    }
    (from, from + to)
}

/// No piece holds the separator.
pub proof fn lemma_fields_free(s: Seq<char>, sep: char)
    ensures
        fields(s, sep).len() > 0,
        forall|i: int| 0 <= i < fields(s, sep).len() ==> !(#[trigger] fields(s, sep)[i]).contains(
            sep,
        ),
    decreases s.len(),
{
    let n = span(s, sep) as int;
    lemma_span_first(s, sep);
    if n < s.len() {
        let rest = fields(s.skip(n + 1), sep);
        lemma_fields_free(s.skip(n + 1), sep);
        assert forall|i: int| 0 <= i < fields(s, sep).len() implies !(#[trigger] fields(
            s,
            sep,
        )[i]).contains(sep) by {
            if i > 0 {
                assert(fields(s, sep)[i] == rest[i - 1]);
            }
        }
    }
}

/// The pieces, with the separator between each two, are the sequence again.
pub proof fn lemma_fields_joined(s: Seq<char>, sep: char)
    ensures
        joined(fields(s, sep), seq![sep]) == s,
    decreases s.len(),
{
    let n = span(s, sep) as int;
    lemma_span_first(s, sep);
    if n < s.len() {
        let rest = s.skip(n + 1);
        lemma_fields_joined(rest, sep);
        lemma_joined_front(s.take(n), fields(rest, sep), seq![sep]);
        lemma_fields_free(rest, sep);
        assert(s.take(n) + seq![sep] + rest =~= s);
    }
}

/// Joining with a part put in front: the part, the separator, and the rest
/// joined.
pub proof fn lemma_joined_front(head: Seq<char>, tail: Seq<Seq<char>>, sep: Seq<char>)
    requires
        tail.len() > 0,
    ensures
        joined(seq![head] + tail, sep) == head + sep + joined(tail, sep),
    decreases tail.len(),
{
    let all = seq![head] + tail;
    assert(all.last() == tail.last());
    if tail.len() == 1 {
        assert(all.drop_last() =~= seq![head]);
        assert(joined(seq![head], sep) == head);
        assert(joined(tail, sep) == tail.last());
    } else {
        assert(all.drop_last() =~= seq![head] + tail.drop_last());
        lemma_joined_front(head, tail.drop_last(), sep);
        assert(joined(all, sep) == joined(all.drop_last(), sep) + sep + all.last());
        assert(joined(tail, sep) == joined(tail.drop_last(), sep) + sep + tail.last());
        assert(head + sep + joined(tail.drop_last(), sep) + sep + tail.last() =~= head + sep + (
        joined(tail.drop_last(), sep) + sep + tail.last()));
    }
}

/// The characters of `s`, in order.
pub fn to_chars(s: &str) -> (out: Vec<char>)
    ensures
        out@ == s@,
{
    let mut out: Vec<char> = Vec::new();
    for c in it: s.chars()
        invariant
            out@ == it.seq().take(it.index() as int),
            it.seq() == s@,
    {
        out.push(c);
    }
    out
}

/// The characters of `s` from position `from` up to, not including, `to`.
pub(crate) fn cut(s: &str, from: usize, to: usize) -> (out: String)
    requires
        from <= to <= s@.len(),
    ensures
        out@ == s@.subrange(from as int, to as int),
{
    s.substring_char(from, to).to_owned()
}

/// Whether `a` and `b` hold the same characters.
pub fn same(a: &str, b: &str) -> (r: bool)
    ensures
        r == (a@ == b@),
{
    let x = to_chars(a);
    let y = to_chars(b);
    if x.len() != y.len() {
        return false;
    }
    let n: usize = x.len();
    let mut i: usize = 0;
    while i < n
        invariant
            x@ == a@,
            y@ == b@,
            n == x.len(),
            n == y.len(),
            i <= n,
            forall|k: int| 0 <= k < i ==> a@[k] == b@[k],
        decreases n - i,
    {
        if x[i] != y[i] {
            return false;
        }
        i += 1;
    }
    assert(a@ =~= b@);
    true
}

/// Whether `c` counts as white space.
pub fn whitespace(c: char) -> (b: bool)
    ensures
        b == is_whitespace(c),
{
    let n: u32 = c as u32;
    (0x09 <= n && n <= 0x0d) || n == 0x20 || n == 0x85 || n == 0xa0 || n == 0x1680 || (0x2000 <= n
        && n <= 0x200a) || n == 0x2028 || n == 0x2029 || n == 0x202f || n == 0x205f || n == 0x3000
}

/// `s` without its leading and trailing white space.
pub fn trim(s: &str) -> (out: String)
    ensures
        out@ == trimmed(s@),
{
    let chars = to_chars(s);
    let n: usize = chars.len();
    let mut lo: usize = 0;
    assert(s@.skip(0) =~= s@);
    while lo < n && whitespace(chars[lo])
        invariant
            chars@ == s@,
            n == chars.len(),
            lo <= n,
            trimmed_start(s@) == trimmed_start(s@.skip(lo as int)),
        decreases n - lo,
    {
        assert(s@.skip(lo as int).drop_first() =~= s@.skip(lo as int + 1));
        lo += 1;
    }
    assert(trimmed_start(s@) == s@.skip(lo as int));
    let ghost rest = s@.skip(lo as int);
    let mut hi: usize = n;
    assert(rest.take(n - lo) =~= rest);
    while hi > lo && whitespace(chars[hi - 1])
        invariant
            chars@ == s@,
            n == chars.len(),
            lo <= hi <= n,
            rest == s@.skip(lo as int),
            trimmed_end(rest) == trimmed_end(rest.take(hi - lo)),
        decreases hi,
    {
        assert(rest.take(hi - lo).drop_last() =~= rest.take(hi - lo - 1));
        hi -= 1;
    }
    assert(rest.take(hi - lo) =~= s@.subrange(lo as int, hi as int));
    cut(s, lo, hi)
}

/// The pieces of `s` between the occurrences of `sep`, in order.
pub fn split(s: &str, sep: char) -> (out: Vec<String>)
    ensures
        out.deep_view() == fields(s@, sep),
{
    let chars = to_chars(s);
    let n: usize = chars.len();
    let mut out: Vec<String> = Vec::new();
    let mut start: usize = 0;
    let mut i: usize = 0;
    assert(s@.skip(0) =~= s@);
    assert(out.deep_view() + fields(s@, sep) =~= fields(s@, sep));
    while i < n
        invariant
            chars@ == s@,
            n == chars.len(),
            start <= i <= n,
            forall|k: int| start <= k < i ==> s@[k] != sep,
            fields(s@, sep) == out.deep_view() + fields(s@.skip(start as int), sep),
        decreases n - i,
    {
        if chars[i] == sep {
            let piece = cut(s, start, i);
            proof {
                let t = s@.skip(start as int);
                lemma_span_is(t, sep, i - start);
                assert(t.take(i - start) =~= s@.subrange(start as int, i as int));
                assert(t.skip(i - start + 1) =~= s@.skip(i as int + 1));
                assert(out.deep_view().push(piece@) + fields(s@.skip(i as int + 1), sep)
                    =~= out.deep_view() + fields(t, sep));
            }
            let ghost before = out.deep_view();
            out.push(piece);
            assert(out.deep_view() =~= before.push(piece@));
            start = i + 1;
        }
        i += 1;
    }
    let piece = cut(s, start, n);
    proof {
        let t = s@.skip(start as int);
        lemma_span_is(t, sep, n - start);
        assert(t =~= s@.subrange(start as int, n as int));
        assert(out.deep_view().push(piece@) =~= out.deep_view() + fields(t, sep));
    }
    let ghost before = out.deep_view();
    out.push(piece);
    assert(out.deep_view() =~= before.push(piece@));
    out
}

/// The concatenation of `parts` with `sep` between each two neighbours.
pub fn join(parts: &Vec<String>, sep: &str) -> (out: String)
    ensures
        out@ == joined(parts.deep_view(), sep@),
{
    let mut out = String::new();
    let n: usize = parts.len();
    let mut i: usize = 0;
    while i < n
        invariant
            n == parts.len(),
            i <= n,
            out@ == joined(parts.deep_view().take(i as int), sep@),
        decreases n - i,
    {
        if i > 0 {
            out.append(sep);
        }
        out.append(parts[i].as_str());
        proof {
            let now = parts.deep_view().take(i as int + 1);
            assert(now.drop_last() =~= parts.deep_view().take(i as int));
            assert(now.last() == parts[i as int]@);
            if i == 0 {
                assert(out@ =~= now.first());
            }
        }
        i += 1;
    }
    assert(parts.deep_view().take(n as int) =~= parts.deep_view());
    out
}

} // verus!
