//! Moving between strings and sequences of characters.

use vstd::prelude::*;
use vstd::string::*;

verus! {

/// Whether `c` is white space: one of the code points with the Unicode
/// property `White_Space`.
pub open spec fn white_space(c: char) -> bool {
    let u: u32 = c as u32;
    ||| 0x09 <= u <= 0x0D
    ||| u == 0x20
    ||| u == 0x85
    ||| u == 0xA0
    ||| u == 0x1680
    ||| 0x2000 <= u <= 0x200A
    ||| u == 0x2028
    ||| u == 0x2029
    ||| u == 0x202F
    ||| u == 0x205F
    ||| u == 0x3000
}

/// `char::is_whitespace` of std. Its documentation defines white space by the
/// Unicode property `White_Space`; the contract takes on trust that it
/// answers for exactly the code points listed in `white_space`.
#[verifier::external_body]
pub(crate) fn is_space(c: char) -> (b: bool)
    ensures
        b == white_space(c),
{
    c.is_whitespace()
}

/// The view of an optional text.
pub open spec fn text_view(text: Option<&str>) -> Option<Seq<char>> {
    match text {
        Some(t) => Some(t@),
        None => None,
    }
}

/// The strings of `v` as character sequences.
pub open spec fn views(v: Seq<String>) -> Seq<Seq<char>> {
    Seq::new(v.len(), |i: int| v[i]@)
}

/// `String::push` of std appends one character to the end of the string and
/// leaves what was there before in place.
pub assume_specification[ String::push ](s: &mut String, c: char)
    ensures
        final(s)@ == old(s)@.push(c),
;

/// The characters of `s`, in order.
pub fn chars_of(s: &str) -> (out: Vec<char>)
    ensures
        out@ == s@,
{
    let mut out: Vec<char> = Vec::new();
    for c in it: s.chars()
        invariant
            it.seq() == s@,
            out.len() == it.index(),
            forall|j: int| 0 <= j < out.len() ==> out@[j] == it.seq()[j],
    {
        out.push(c);
    }
    assert(out@ =~= s@);
    out
}

/// The characters `v[from..to]` as a string.
pub fn string_of(v: &Vec<char>, from: usize, to: usize) -> (out: String)
    requires
        from <= to <= v.len(),
    ensures
        out@ == v@.subrange(from as int, to as int),
{
    let mut out = String::new();
    let mut i: usize = from;
    while i < to
        invariant
            from <= i <= to <= v.len(),
            out@ == v@.subrange(from as int, i as int),
        decreases to - i,
    {
        out.push(v[i]);
        i += 1;
        assert(v@.subrange(from as int, i as int) == v@.subrange(from as int, i - 1).push(v@[i - 1]));
    }
    assert(v@.subrange(from as int, from as int) == Seq::<char>::empty());
    out
}

/// How many characters of `t` from index `from` on stand before the next
/// `stop`, or before the end of `t` where no `stop` follows.
pub open spec fn span(t: Seq<char>, from: int, stop: char) -> nat
    decreases t.len() - from,
{
    if from < 0 || from >= t.len() || t[from] == stop {
        0
    } else {
        1 + span(t, from + 1, stop)
    }
}

/// A span ends inside `t`, holds no `stop`, and ends at a `stop` unless it
/// ends with `t`.
pub proof fn lemma_span(t: Seq<char>, from: int, stop: char)
    requires
        0 <= from <= t.len(),
    ensures
        from + span(t, from, stop) <= t.len(),
        forall|k: int| from <= k < from + span(t, from, stop) ==> t[k] != stop,
        from + span(t, from, stop) < t.len() ==> t[from + span(t, from, stop)] == stop,
    decreases t.len() - from,
{
    if from < t.len() && t[from] != stop {
        lemma_span(t, from + 1, stop);
    }
}

/// A stretch of `n` characters without `stop` that ends at a `stop`, or with
/// `t`, is the span.
pub proof fn lemma_span_is(t: Seq<char>, from: int, stop: char, n: nat)
    requires
        0 <= from,
        from + n <= t.len(),
        forall|k: int| from <= k < from + n ==> t[k] != stop,
        from + n < t.len() ==> t[from + n] == stop,
    ensures
        span(t, from, stop) == n,
    decreases n,
{
    if n > 0 {
        lemma_span_is(t, from + 1, stop, (n - 1) as nat);
    }
}

/// The index of the first `stop` at or behind `from`, or the length of `t`
/// where there is none.
pub fn find_from(t: &Vec<char>, from: usize, stop: char) -> (at: usize)
    requires
        from <= t.len(),
    ensures
        at == from + span(t@, from as int, stop),
        from <= at <= t.len(),
{
    let mut at: usize = from;
    while at < t.len() && t[at] != stop
        invariant
            from <= at <= t.len(),
            from + span(t@, from as int, stop) == at + span(t@, at as int, stop),
        decreases t.len() - at,
    {
        at += 1;
    }
    at
}

/// The parts in order, with `sep` between each two of them.
pub open spec fn joined(parts: Seq<Seq<char>>, sep: Seq<char>) -> Seq<char>
    decreases parts.len(),
{
    if parts.len() == 0 {
        Seq::empty()
    } else if parts.len() == 1 {
        parts[0]
    } else {
        joined(parts.drop_last(), sep) + sep + parts.last()
    }
}

/// Joins `parts` with `sep` between each two of them.
pub fn join(parts: &Vec<String>, sep: &str) -> (out: String)
    ensures
        out@ == joined(views(parts@), sep@),
{
    let mut out = String::new();
    let ghost all = views(parts@);
    let mut i: usize = 0;
    while i < parts.len()
        invariant
            i <= parts.len(),
            all == views(parts@),
            out@ == joined(all.take(i as int), sep@),
        decreases parts.len() - i,
    {
        if i > 0 {
            out.append(sep);
        }
        out.append(parts[i].as_str());
        proof {
            assert(all.take(i + 1).drop_last() =~= all.take(i as int));
            assert(all.take(i + 1).last() == parts@[i as int]@);
            if i == 0 {
                assert(out@ =~= parts@[0]@);
            }
        }
        i += 1;
    }
    proof {
        assert(all.take(parts.len() as int) =~= all);
    }
    out
}

/// How many white-space characters stand in a row from index `from` on.
pub open spec fn leading(t: Seq<char>, from: int) -> nat
    decreases t.len() - from,
{
    if from < 0 || from >= t.len() || !white_space(t[from]) {
        0
    } else {
        1 + leading(t, from + 1)
    }
}

/// How many white-space characters stand in a row just before index `to`.
pub open spec fn trailing(t: Seq<char>, to: int) -> nat
    decreases to,
{
    if to <= 0 || to > t.len() || !white_space(t[to - 1]) {
        0
    } else {
        1 + trailing(t, to - 1)
    }
}

/// `t` without the white space at its start and at its end.
pub open spec fn trimmed(t: Seq<char>) -> Seq<char> {
    if leading(t, 0) >= t.len() {
        Seq::empty()
    } else {
        t.subrange(leading(t, 0) as int, t.len() - trailing(t, t.len() as int))
    }
}

/// `s` without the white space at its start and at its end.
pub fn trim(s: &str) -> (out: String)
    ensures
        out@ == trimmed(s@),
{
    let t = chars_of(s);
    let n = t.len();
    let mut a: usize = 0;
    while a < n && is_space(t[a])
        invariant
            a <= n,
            n == t.len(),
            leading(t@, 0) == a + leading(t@, a as int),
        decreases n - a,
    {
        a += 1;
    }
    if a == n {
        return String::new();
    }
    let mut b: usize = n;
    while is_space(t[b - 1])
        invariant
            a < b <= n,
            n == t.len(),
            !white_space(t@[a as int]),
            trailing(t@, n as int) == (n - b) + trailing(t@, b as int),
        decreases b,
    {
        b -= 1;
    }
    string_of(&t, a, b)
}

} // verus!
