//! How a text falls into lines.
//!
//! A line break is one of seven characters, or a carriage return followed by
//! a line feed, which together make one break. A line starts at the start of
//! the text and after each line break, and the break is part of the line that
//! it ends. So a text has one line more than it has line breaks, and a text
//! that ends in a line break has an empty last line.

use vstd::prelude::*;

verus! {

/// Whether `c` is one of the characters that break a line: line feed,
/// vertical tab, form feed, carriage return, next line, line separator,
/// paragraph separator.
pub open spec fn is_line_break(c: char) -> bool {
    c == '\u{000A}' || c == '\u{000B}' || c == '\u{000C}' || c == '\u{000D}' || c == '\u{0085}'
        || c == '\u{2028}' || c == '\u{2029}'
}

/// Whether a line break of `s` ends with the character at `i`. A carriage
/// return with a line feed right after it does not end a break: the line
/// feed does.
pub open spec fn break_ends_at(s: Seq<char>, i: int) -> bool {
    &&& 0 <= i < s.len()
    &&& is_line_break(s[i])
    &&& !(s[i] == '\u{000D}' && i + 1 < s.len() && s[i + 1] == '\u{000A}')
}

/// The number of line breaks of `s` that end before the position `p`.
pub open spec fn breaks_before(s: Seq<char>, p: int) -> nat
    decreases p,
{
    if p <= 0 {
        0
    } else if break_ends_at(s, p - 1) {
        breaks_before(s, p - 1) + 1
    } else {
        breaks_before(s, p - 1)
    }
}

/// The number of lines of `s`.
pub open spec fn line_count(s: Seq<char>) -> nat {
    breaks_before(s, s.len() as int) + 1
}

/// Whether a line of `s` starts at the position `p`.
pub open spec fn starts_line(s: Seq<char>, p: int) -> bool {
    p == 0 || break_ends_at(s, p - 1)
}

/// The position after the first line break of `s` that ends at `from` or
/// later, and the length of `s` if there is none.
pub open spec fn next_line(s: Seq<char>, from: int) -> int
    decreases s.len() - from,
{
    if from >= s.len() {
        s.len() as int
    } else if break_ends_at(s, from) {
        from + 1
    } else {
        next_line(s, from + 1)
    }
}

/// The position at which line `n` of `s` starts, and the length of `s` if
/// it has no such line.
pub open spec fn line_start(s: Seq<char>, n: nat) -> int
    decreases n,
{
    if n == 0 {
        0
    } else {
        next_line(s, line_start(s, (n - 1) as nat))
    }
}

/// The position of the first line break character of `s` at `from` or
/// later, and the length of `s` if there is none.
pub open spec fn line_end(s: Seq<char>, from: int) -> int
    decreases s.len() - from,
{
    if from >= s.len() {
        s.len() as int
    } else if is_line_break(s[from]) {
        from
    } else {
        line_end(s, from + 1)
    }
}

/// The number of characters of line `n` of `s`, its line break not counted.
pub open spec fn line_len(s: Seq<char>, n: nat) -> int {
    line_end(s, line_start(s, n)) - line_start(s, n)
}

/// Line `n` of `s` without its line break.
pub open spec fn line_text(s: Seq<char>, n: nat) -> Seq<char> {
    s.subrange(line_start(s, n), line_end(s, line_start(s, n)))
}

/// Whether column `x` of line `y` is a place in `s`: the line exists, and
/// the column is at one of its characters or right after the last of them.
pub open spec fn valid_position(s: Seq<char>, x: int, y: int) -> bool {
    0 <= y < line_count(s) && 0 <= x <= line_len(s, y as nat)
}

/// The lines of `s` without their line breaks, in order.
pub open spec fn lines_of(s: Seq<char>) -> Seq<Seq<char>> {
    Seq::new(line_count(s), |n: int| line_text(s, n as nat))
}

/// More line breaks end before a later position than before an earlier one,
/// and one more where a break ends between the two.
pub proof fn lemma_breaks_monotone(s: Seq<char>, p: int, q: int)
    requires
        p <= q,
    ensures
        breaks_before(s, p) <= breaks_before(s, q),
        forall|i: int| p <= i < q && break_ends_at(s, i) ==> breaks_before(s, p) < breaks_before(s, q),
    decreases q - p,
{
    if p < q {
        lemma_breaks_monotone(s, p, q - 1);
    }
}

/// Where no line break ends between two positions, as many end before the
/// one as before the other.
pub proof fn lemma_breaks_none(s: Seq<char>, p: int, q: int)
    requires
        p <= q,
        forall|i: int| p <= i < q ==> !break_ends_at(s, i),
    ensures
        breaks_before(s, p) == breaks_before(s, q),
    decreases q - p,
{
    if p < q {
        lemma_breaks_none(s, p, q - 1);
    }
}

/// The next line after `from` starts after the first line break that ends
/// at `from` or later.
pub proof fn lemma_next_line(s: Seq<char>, from: int)
    requires
        0 <= from <= s.len(),
    ensures
        from <= next_line(s, from) <= s.len(),
        forall|i: int| from <= i < next_line(s, from) - 1 ==> !break_ends_at(s, i),
        next_line(s, from) > from && break_ends_at(s, next_line(s, from) - 1) || {
            &&& next_line(s, from) == s.len()
            &&& forall|i: int| from <= i < s.len() ==> !break_ends_at(s, i)
        },
    decreases s.len() - from,
{
    if from < s.len() && !break_ends_at(s, from) {
        lemma_next_line(s, from + 1);
    }
}

/// Line `n` of a text starts at a line start before which `n` line breaks
/// end; and the start of a line that the text lacks is its length.
pub proof fn lemma_line_start(s: Seq<char>, n: nat)
    ensures
        0 <= line_start(s, n) <= s.len(),
        n < line_count(s) ==> starts_line(s, line_start(s, n)) && breaks_before(
            s,
            line_start(s, n),
        ) == n,
        n >= line_count(s) ==> line_start(s, n) == s.len(),
    decreases n,
{
    if n > 0 {
        let m = (n - 1) as nat;
        lemma_line_start(s, m);
        let a = line_start(s, m);
        let q = next_line(s, a);
        lemma_next_line(s, a);
        lemma_breaks_monotone(s, a, s.len() as int);
        lemma_breaks_monotone(s, q, s.len() as int);
        if m < line_count(s) {
            if q > a && break_ends_at(s, q - 1) {
                lemma_breaks_none(s, a, q - 1);
            } else {
                lemma_breaks_none(s, a, s.len() as int);
            }
        }
    }
}

/// Only one line start has a given number of line breaks before it.
pub proof fn lemma_line_start_unique(s: Seq<char>, p: int, n: nat)
    requires
        0 <= p <= s.len(),
        starts_line(s, p),
        breaks_before(s, p) == n,
    ensures
        n < line_count(s),
        line_start(s, n) == p,
{
    lemma_breaks_monotone(s, p, s.len() as int);
    lemma_line_start(s, n);
    let q = line_start(s, n);
    if p < q {
        lemma_breaks_monotone(s, p, q);
    } else if q < p {
        lemma_breaks_monotone(s, q, p);
    }
}

/// A line ends at the first line break character after its start.
pub proof fn lemma_line_end(s: Seq<char>, from: int)
    requires
        0 <= from <= s.len(),
    ensures
        from <= line_end(s, from) <= s.len(),
        forall|i: int| from <= i < line_end(s, from) ==> !is_line_break(s[i]),
        line_end(s, from) < s.len() ==> is_line_break(s[line_end(s, from)]),
    decreases s.len() - from,
{
    if from < s.len() && !is_line_break(s[from]) {
        lemma_line_end(s, from + 1);
    }
}

/// Only one position at or after `from` is the first line break character
/// from there on.
pub proof fn lemma_line_end_unique(s: Seq<char>, from: int, e: int)
    requires
        0 <= from <= e <= s.len(),
        forall|i: int| from <= i < e ==> !is_line_break(s[i]),
        e < s.len() ==> is_line_break(s[e]),
    ensures
        line_end(s, from) == e,
    decreases e - from,
{
    if from < e {
        lemma_line_end_unique(s, from + 1, e);
    }
}

/// Two texts that agree on where line breaks end before `a` have as many
/// line breaks before each position up to `a`.
pub proof fn lemma_breaks_same_prefix(s: Seq<char>, t: Seq<char>, a: int, q: int)
    requires
        q <= a,
        forall|i: int| 0 <= i < a ==> break_ends_at(t, i) == break_ends_at(s, i),
    ensures
        breaks_before(t, q) == breaks_before(s, q),
    decreases q,
{
    if q > 0 {
        lemma_breaks_same_prefix(s, t, a, q - 1);
    }
}

/// Where the line breaks of `t` from `a + d` on end as those of `s` from `a`
/// on do, `d` places apart, as many of them end between two positions of
/// the one text as between the positions `d` places apart in the other.
pub proof fn lemma_breaks_shifted(s: Seq<char>, t: Seq<char>, a: int, d: int, q: int)
    requires
        0 <= a <= q,
        0 <= a + d,
        forall|i: int| a <= i ==> break_ends_at(t, i + d) == break_ends_at(s, i),
    ensures
        breaks_before(t, q + d) - breaks_before(t, a + d) == breaks_before(s, q) - breaks_before(
            s,
            a,
        ),
    decreases q - a,
{
    if q > a {
        lemma_breaks_shifted(s, t, a, d, q - 1);
        assert(break_ends_at(t, (q - 1) + d) == break_ends_at(s, q - 1));
    }
}

/// How the ends of line breaks move when a character is put into a text:
/// those before the character that precedes it stay, those after it move one
/// place on.
pub proof fn lemma_insert_breaks(s: Seq<char>, p: int, c: char)
    requires
        0 <= p <= s.len(),
    ensures
        forall|i: int| 0 <= i < p - 1 ==> break_ends_at(s.insert(p, c), i) == break_ends_at(s, i),
        forall|i: int| p <= i ==> break_ends_at(s.insert(p, c), i + 1) == break_ends_at(s, i),
{
    let t = s.insert(p, c);
    assert forall|i: int| 0 <= i < p - 1 implies break_ends_at(t, i) == break_ends_at(s, i) by {
        assert(t[i] == s[i]);
        assert(t[i + 1] == s[i + 1]);
    }
    assert forall|i: int| p <= i implies break_ends_at(t, i + 1) == break_ends_at(s, i) by {
        if i < s.len() {
            assert(t[i + 1] == s[i]);
            if i + 1 < s.len() {
                assert(t[i + 2] == s[i + 1]);
            }
        }
    }
}

/// How the ends of line breaks move when a character is taken out of a
/// text: those before the character that precedes it stay, those after it
/// move one place back.
pub proof fn lemma_remove_breaks(s: Seq<char>, r: int)
    requires
        0 <= r < s.len(),
    ensures
        forall|i: int| 0 <= i < r - 1 ==> break_ends_at(s.remove(r), i) == break_ends_at(s, i),
        forall|i: int| r + 1 <= i ==> break_ends_at(s.remove(r), i - 1) == break_ends_at(s, i),
{
    let t = s.remove(r);
    assert forall|i: int| 0 <= i < r - 1 implies break_ends_at(t, i) == break_ends_at(s, i) by {
        assert(t[i] == s[i]);
        assert(t[i + 1] == s[i + 1]);
    }
    assert forall|i: int| r + 1 <= i implies break_ends_at(t, i - 1) == break_ends_at(s, i) by {
        if i < s.len() {
            assert(t[i - 1] == s[i]);
            if i + 1 < s.len() {
                assert(t[i] == s[i + 1]);
            }
        }
    }
}

/// A line ends at or before each line break character that stands at or
/// after its start.
pub proof fn lemma_line_end_before(s: Seq<char>, from: int, j: int)
    requires
        0 <= from <= j < s.len(),
        is_line_break(s[j]),
    ensures
        line_end(s, from) <= j,
{
    lemma_line_end(s, from);
}

/// Lines come in order: an earlier line starts before a later one, and its
/// characters end before the later one starts.
pub proof fn lemma_lines_ordered(s: Seq<char>, k: nat, m: nat)
    requires
        k < m < line_count(s),
    ensures
        line_start(s, k) <= line_end(s, line_start(s, k)) < line_start(s, m) <= s.len(),
{
    lemma_line_start(s, k);
    lemma_line_start(s, m);
    lemma_line_start(s, k + 1);
    let u = line_start(s, k);
    let v = line_start(s, k + 1);
    let w = line_start(s, m);
    lemma_line_end(s, u);
    if u >= v {
        lemma_breaks_monotone(s, v, u);
    }
    if v > w {
        lemma_breaks_monotone(s, w, v);
    }
    lemma_line_end_before(s, u, v - 1);
}

/// A stretch of a text `t` that starts a line, has `j` line breaks before
/// it, and holds what line `k` of `s` holds up to its line break or the
/// end of the text, is line `j` of `t`.
pub proof fn lemma_same_line(s: Seq<char>, k: nat, t: Seq<char>, j: nat, at: int)
    requires
        k < line_count(s),
        0 <= at <= t.len(),
        starts_line(t, at),
        breaks_before(t, at) == j,
        at + line_len(s, k) <= t.len(),
        t.subrange(at, at + line_len(s, k)) == line_text(s, k),
        at + line_len(s, k) == t.len() || is_line_break(t[at + line_len(s, k)]),
    ensures
        j < line_count(t),
        line_start(t, j) == at,
        line_len(t, j) == line_len(s, k),
        line_text(t, j) == line_text(s, k),
{
    let u = line_start(s, k);
    let n = line_len(s, k);
    lemma_line_start(s, k);
    lemma_line_end(s, u);
    lemma_line_start_unique(t, at, j);
    assert forall|i: int| at <= i < at + n implies !is_line_break(t[i]) by {
        assert(t.subrange(at, at + n)[i - at] == t[i]);
        assert(line_text(s, k)[i - at] == s[u + (i - at)]);
    }
    lemma_line_end_unique(t, at, at + n);
    assert(line_text(t, j) =~= line_text(s, k));
}

/// No more line breaks end before a position than characters stand before
/// it.
pub proof fn lemma_breaks_bounded(s: Seq<char>, p: int)
    requires
        0 <= p,
    ensures
        breaks_before(s, p) <= p,
        breaks_before(s, p) <= s.len(),
    decreases p,
{
    if p > 0 {
        lemma_breaks_bounded(s, p - 1);
    }
}

/// A line with its line break: the characters of the line, which break no
/// line, and then up to the start of the next line only characters that do.
pub proof fn lemma_line_shape(s: Seq<char>, n: nat)
    requires
        n < line_count(s),
    ensures
        0 <= line_start(s, n) <= line_end(s, line_start(s, n)) <= line_start(s, n + 1) <= s.len(),
        forall|i: int|
            line_start(s, n) <= i < line_end(s, line_start(s, n)) ==> !is_line_break(s[i]),
        forall|i: int|
            line_end(s, line_start(s, n)) <= i < line_start(s, n + 1) ==> is_line_break(s[i]),
{
    let a = line_start(s, n);
    let e = line_end(s, a);
    let q = line_start(s, n + 1);
    lemma_line_start(s, n);
    lemma_line_end(s, a);
    lemma_next_line(s, a);
    assert(q == next_line(s, a));
    if e < s.len() {
        if break_ends_at(s, e) {
            assert(q == e + 1);
        } else {
            assert(break_ends_at(s, e + 1));
            assert(q == e + 2);
        }
    }
}

/// The number of line break characters at the end of `s`.
pub open spec fn trailing_breaks(s: Seq<char>) -> nat
    decreases s.len(),
{
    if s.len() > 0 && is_line_break(s.last()) {
        trailing_breaks(s.drop_last()) + 1
    } else {
        0
    }
}

/// `s` without the line break characters at its end.
pub open spec fn trimmed(s: Seq<char>) -> Seq<char> {
    s.take(s.len() - trailing_breaks(s))
}

/// Where a text ends in `n` line break characters and has another
/// character before them, or none, `n` is the number of its trailing line
/// break characters.
pub proof fn lemma_trailing_breaks(s: Seq<char>, n: nat)
    requires
        n <= s.len(),
        forall|i: int| s.len() - n <= i < s.len() ==> is_line_break(s[i]),
        n < s.len() ==> !is_line_break(s[s.len() - n - 1]),
    ensures
        trailing_breaks(s) == n,
    decreases n,
{
    if n > 0 {
        let r = s.drop_last();
        assert forall|i: int| r.len() - (n - 1) <= i < r.len() implies is_line_break(r[i]) by {
            assert(r[i] == s[i]);
        }
        if n - 1 < r.len() {
            assert(r[r.len() - (n - 1) - 1] == s[s.len() - n - 1]);
        }
        lemma_trailing_breaks(r, (n - 1) as nat);
    }
}

/// A line with its line break, trimmed, is the line without its line break.
pub proof fn lemma_trimmed_line(s: Seq<char>, n: nat)
    requires
        n < line_count(s),
    ensures
        trimmed(s.subrange(line_start(s, n), line_start(s, n + 1))) == line_text(s, n),
{
    let a = line_start(s, n);
    let e = line_end(s, a);
    let q = line_start(s, n + 1);
    lemma_line_shape(s, n);
    let raw = s.subrange(a, q);
    assert forall|i: int| raw.len() - (q - e) <= i < raw.len() implies is_line_break(raw[i]) by {
        assert(raw[i] == s[a + i]);
    }
    if q - e < raw.len() {
        assert(raw[raw.len() - (q - e) - 1] == s[e - 1]);
    }
    lemma_trailing_breaks(raw, (q - e) as nat);
    assert(trimmed(raw) =~= line_text(s, n));
}

} // verus!
