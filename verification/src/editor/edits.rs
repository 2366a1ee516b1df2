//! What putting a character into a text, or taking one out, does to its
//! lines.

use vstd::prelude::*;
use crate::editor::lines::{
    break_ends_at, breaks_before, is_line_break, lemma_breaks_monotone, lemma_breaks_none,
    lemma_breaks_same_prefix, lemma_breaks_shifted, lemma_insert_breaks, lemma_line_end,
    lemma_line_end_unique, lemma_line_start, lemma_line_start_unique, lemma_lines_ordered,
    lemma_remove_breaks, lemma_same_line, line_count, line_end, line_len, line_start, line_text,
    lines_of, valid_position,
};

verus! {

/// What putting a character that breaks no line into line `y` of a text, at
/// column `x`, does to line `k`: the lines before `y` stay, line `y` gets the
/// character, and the lines after it start one place later.
pub proof fn lemma_insert_char_line(s: Seq<char>, x: int, y: int, c: char, k: nat)
    requires
        valid_position(s, x, y),
        !is_line_break(c),
        k < line_count(s),
    ensures
        ({
            let t = s.insert(line_start(s, y as nat) + x, c);
            &&& line_count(t) == line_count(s)
            &&& line_start(t, k) == line_start(s, k) + if k > y {
                1int
            } else {
                0int
            }
            &&& line_text(t, k) == if k == y {
                line_text(s, k).insert(x, c)
            } else {
                line_text(s, k)
            }
            &&& line_len(t, k) == if k == y {
                line_len(s, k) + 1
            } else {
                line_len(s, k)
            }
        }),
{
    let a = line_start(s, y as nat);
    let e = line_end(s, a);
    let p = a + x;
    let t = s.insert(p, c);
    lemma_line_start(s, y as nat);
    lemma_line_end(s, a);
    lemma_insert_breaks(s, p, c);
    assert forall|i: int| 0 <= i < p implies break_ends_at(t, i) == break_ends_at(s, i) by {
        if i == p - 1 {
            assert(t[p - 1] == s[p - 1]);
            assert(t[p] == c);
        }
    }
    assert(t[p] == c);
    assert(!break_ends_at(t, p));
    lemma_breaks_same_prefix(s, t, p, p);
    lemma_breaks_shifted(s, t, p, 1, s.len() as int);
    assert(line_count(t) == line_count(s));
    let u = line_start(s, k);
    let ek = line_end(s, u);
    lemma_line_start(s, k);
    lemma_line_end(s, u);
    if k < y {
        lemma_lines_ordered(s, k, y as nat);
        lemma_breaks_same_prefix(s, t, p, u);
        assert(t.subrange(u, ek) =~= s.subrange(u, ek));
        assert(t[ek] == s[ek]);
        lemma_same_line(s, k, t, k, u);
    } else if k == y {
        lemma_breaks_same_prefix(s, t, p, a);
        lemma_line_start_unique(t, a, k);
        assert forall|i: int| a <= i < e + 1 implies !is_line_break(t[i]) by {
            if i < p {
                assert(t[i] == s[i]);
            } else if i > p {
                assert(t[i] == s[i - 1]);
            }
        }
        if e < s.len() {
            assert(t[e + 1] == s[e]);
        }
        lemma_line_end_unique(t, a, e + 1);
        assert(line_text(t, k) =~= line_text(s, k).insert(x, c));
    } else {
        lemma_lines_ordered(s, y as nat, k);
        lemma_breaks_shifted(s, t, p, 1, u);
        assert(break_ends_at(t, (u - 1) + 1) == break_ends_at(s, u - 1));
        assert(t.subrange(u + 1, ek + 1) =~= s.subrange(u, ek));
        if ek < s.len() {
            assert(t[ek + 1] == s[ek]);
        }
        lemma_same_line(s, k, t, k, u + 1);
    }
}

/// Putting a character that breaks no line into a text, at a valid
/// position, puts it into the line of that position and leaves the other
/// lines as they are; the position one column on is then valid.
pub proof fn lemma_insert_char(s: Seq<char>, x: int, y: int, c: char)
    requires
        valid_position(s, x, y),
        !is_line_break(c),
    ensures
        ({
            let t = s.insert(line_start(s, y as nat) + x, c);
            &&& line_count(t) == line_count(s)
            &&& lines_of(t) == lines_of(s).update(y, line_text(s, y as nat).insert(x, c))
            &&& valid_position(t, x + 1, y)
        }),
{
    let t = s.insert(line_start(s, y as nat) + x, c);
    lemma_insert_char_line(s, x, y, c, y as nat);
    assert forall|k: int| 0 <= k < line_count(s) implies lines_of(t)[k] == lines_of(s).update(
        y,
        line_text(s, y as nat).insert(x, c),
    )[k] by {
        lemma_insert_char_line(s, x, y, c, k as nat);
    }
    assert(lines_of(t) =~= lines_of(s).update(y, line_text(s, y as nat).insert(x, c)));
}

/// Whether the character before the position `p` of `s` is a carriage
/// return: a line feed put at `p` would make no new line break there, but
/// join the carriage return in one.
pub open spec fn after_carriage_return(s: Seq<char>, p: int) -> bool {
    0 < p <= s.len() && s[p - 1] == '\u{000D}'
}

/// The character that breaks the line when it is put into `s` at the
/// position `p`: a line feed; but right after a carriage return, which a
/// line feed would join, a carriage return.
pub open spec fn line_break_at(s: Seq<char>, p: int) -> char {
    if after_carriage_return(s, p) {
        '\u{000D}'
    } else {
        '\u{000A}'
    }
}

/// What breaking line `y` of a text at column `x` does to the lines: line
/// `j` of the new text is line `j` of the old one before `y`, the two parts
/// of line `y` at `y` and `y + 1`, and line `j - 1` of the old text after
/// that.
pub proof fn lemma_split_line(s: Seq<char>, x: int, y: int, j: nat)
    requires
        valid_position(s, x, y),
        j <= line_count(s),
    ensures
        ({
            let p = line_start(s, y as nat) + x;
            let t = s.insert(p, line_break_at(s, p));
            &&& line_count(t) == line_count(s) + 1
            &&& line_text(t, j) == if j < y {
                line_text(s, j)
            } else if j == y {
                line_text(s, j).take(x)
            } else if j == y + 1 {
                line_text(s, y as nat).skip(x)
            } else {
                line_text(s, (j - 1) as nat)
            }
            &&& j == y + 1 ==> line_start(t, j) == p + 1 && line_len(t, j) == line_len(
                s,
                y as nat,
            ) - x
        }),
{
    let a = line_start(s, y as nat);
    let e = line_end(s, a);
    let p = a + x;
    let c = line_break_at(s, p);
    lemma_line_start(s, y as nat);
    lemma_line_end(s, a);
    let t = s.insert(p, c);
    lemma_insert_breaks(s, p, c);
    assert(t[p] == c);
    // A carriage return before the cursor ends the line above, so no line feed follows it.
    assert(after_carriage_return(s, p) ==> x == 0 && break_ends_at(s, p - 1));
    assert forall|i: int| 0 <= i < p implies break_ends_at(t, i) == break_ends_at(s, i) by {
        if i == p - 1 {
            assert(t[p - 1] == s[p - 1]);
        }
    }
    assert(break_ends_at(t, p)) by {
        if p + 1 < t.len() {
            assert(t[p + 1] == s[p]);
        }
    }
    lemma_breaks_same_prefix(s, t, p, p);
    lemma_breaks_shifted(s, t, p, 1, s.len() as int);
    assert(line_count(t) == line_count(s) + 1);
    if j < y {
        let u = line_start(s, j);
        let ek = line_end(s, u);
        lemma_line_start(s, j);
        lemma_line_end(s, u);
        lemma_lines_ordered(s, j, y as nat);
        lemma_breaks_same_prefix(s, t, p, u);
        assert(t.subrange(u, ek) =~= s.subrange(u, ek));
        assert(t[ek] == s[ek]);
        lemma_same_line(s, j, t, j, u);
    } else if j == y {
        lemma_breaks_same_prefix(s, t, p, a);
        lemma_line_start_unique(t, a, j);
        assert forall|i: int| a <= i < p implies !is_line_break(t[i]) by {
            assert(t[i] == s[i]);
        }
        lemma_line_end_unique(t, a, p);
        assert(line_text(t, j) =~= line_text(s, j).take(x));
    } else if j == y + 1 {
        assert forall|i: int| a <= i < p implies !break_ends_at(s, i) by {}
        lemma_breaks_none(s, a, p);
        lemma_line_start_unique(t, p + 1, j);
        assert forall|i: int| p + 1 <= i < e + 1 implies !is_line_break(t[i]) by {
            assert(t[i] == s[i - 1]);
        }
        if e < s.len() {
            assert(t[e + 1] == s[e]);
        }
        lemma_line_end_unique(t, p + 1, e + 1);
        assert(line_text(t, j) =~= line_text(s, y as nat).skip(x));
    } else {
        let k = (j - 1) as nat;
        let u = line_start(s, k);
        let ek = line_end(s, u);
        lemma_line_start(s, k);
        lemma_line_end(s, u);
        lemma_lines_ordered(s, y as nat, k);
        lemma_breaks_shifted(s, t, p, 1, u);
        assert(break_ends_at(t, (u - 1) + 1) == break_ends_at(s, u - 1));
        assert(t.subrange(u + 1, ek + 1) =~= s.subrange(u, ek));
        if ek < s.len() {
            assert(t[ek + 1] == s[ek]);
        }
        lemma_same_line(s, k, t, j, u + 1);
    }
}

/// Breaking a line of a text at a valid position splits that line in two at
/// the column and leaves the other lines as they are; the start of the line
/// below is then a valid position.
pub proof fn lemma_newline(s: Seq<char>, x: int, y: int)
    requires
        valid_position(s, x, y),
    ensures
        ({
            let p = line_start(s, y as nat) + x;
            let t = s.insert(p, line_break_at(s, p));
            &&& line_count(t) == line_count(s) + 1
            &&& lines_of(t) == lines_of(s).take(y) + seq![
                line_text(s, y as nat).take(x),
                line_text(s, y as nat).skip(x),
            ] + lines_of(s).skip(y + 1)
            &&& valid_position(t, 0, y + 1)
        }),
{
    let p = line_start(s, y as nat) + x;
    let t = s.insert(p, line_break_at(s, p));
    let split = lines_of(s).take(y) + seq![
        line_text(s, y as nat).take(x),
        line_text(s, y as nat).skip(x),
    ] + lines_of(s).skip(y + 1);
    lemma_split_line(s, x, y, (y + 1) as nat);
    assert forall|j: int| 0 <= j < line_count(s) + 1 implies lines_of(t)[j] == split[j] by {
        lemma_split_line(s, x, y, j as nat);
    }
    assert(lines_of(t) =~= split);
}

/// Whether the character at the position `r` of `s` stands between a
/// carriage return and a line feed: taking it out joins the two in one line
/// break.
pub open spec fn between_return_and_feed(s: Seq<char>, r: int) -> bool {
    0 < r && r + 1 < s.len() && s[r - 1] == '\u{000D}' && s[r + 1] == '\u{000A}'
}

/// What taking the character before column `x` out of line `y` of a text
/// does to line `k`, where that joins no two line breaks: line `y` loses
/// the character, and the other lines stay as they are.
pub proof fn lemma_remove_char_line(s: Seq<char>, x: int, y: int, k: nat)
    requires
        valid_position(s, x, y),
        x >= 1,
        !between_return_and_feed(s, line_start(s, y as nat) + x - 1),
        k < line_count(s),
    ensures
        ({
            let t = s.remove(line_start(s, y as nat) + x - 1);
            &&& line_count(t) == line_count(s)
            &&& line_text(t, k) == if k == y {
                line_text(s, k).remove(x - 1)
            } else {
                line_text(s, k)
            }
            &&& line_len(t, k) == if k == y {
                line_len(s, k) - 1
            } else {
                line_len(s, k)
            }
        }),
{
    let a = line_start(s, y as nat);
    let e = line_end(s, a);
    lemma_line_start(s, y as nat);
    lemma_line_end(s, a);
    let r = a + x - 1;
    let t = s.remove(r);
    lemma_remove_breaks(s, r);
    assert(!is_line_break(s[r]));
    assert forall|i: int| 0 <= i < r implies break_ends_at(t, i) == break_ends_at(s, i) by {
        if i == r - 1 {
            assert(t[r - 1] == s[r - 1]);
            if r < t.len() {
                assert(t[r] == s[r + 1]);
            }
        }
    }
    lemma_breaks_same_prefix(s, t, r, r);
    assert(breaks_before(s, r + 1) == breaks_before(s, r));
    lemma_breaks_shifted(s, t, r + 1, -1, s.len() as int);
    assert(line_count(t) == line_count(s));
    let u = line_start(s, k);
    let ek = line_end(s, u);
    lemma_line_start(s, k);
    lemma_line_end(s, u);
    if k < y {
        lemma_lines_ordered(s, k, y as nat);
        lemma_breaks_same_prefix(s, t, r, u);
        assert(t.subrange(u, ek) =~= s.subrange(u, ek));
        assert(t[ek] == s[ek]);
        lemma_same_line(s, k, t, k, u);
    } else if k == y {
        lemma_breaks_same_prefix(s, t, r, a);
        lemma_line_start_unique(t, a, k);
        assert forall|i: int| a <= i < e - 1 implies !is_line_break(t[i]) by {
            if i < r {
                assert(t[i] == s[i]);
            } else {
                assert(t[i] == s[i + 1]);
            }
        }
        if e < s.len() {
            assert(t[e - 1] == s[e]);
        }
        lemma_line_end_unique(t, a, e - 1);
        assert(line_text(t, k) =~= line_text(s, k).remove(x - 1));
    } else {
        lemma_lines_ordered(s, y as nat, k);
        lemma_breaks_shifted(s, t, r + 1, -1, u);
        assert(break_ends_at(t, (u - 1) - 1) == break_ends_at(s, u - 1));
        assert(t.subrange(u - 1, ek - 1) =~= s.subrange(u, ek));
        if ek < s.len() {
            assert(t[ek - 1] == s[ek]);
        }
        lemma_same_line(s, k, t, k, u - 1);
    }
}

/// Taking the character before a valid position out of a text takes it out
/// of the line of that position and leaves the other lines as they are. Only
/// where it was all that stood between a carriage return and a line feed
/// these two become one line break, and the line is gone. Either way the
/// position one column back is then valid.
pub proof fn lemma_backspace(s: Seq<char>, x: int, y: int)
    requires
        valid_position(s, x, y),
        x >= 1,
    ensures
        ({
            let r = line_start(s, y as nat) + x - 1;
            let t = s.remove(r);
            &&& lines_of(t) == if between_return_and_feed(s, r) {
                lines_of(s).remove(y)
            } else {
                lines_of(s).update(y, line_text(s, y as nat).remove(x - 1))
            }
            &&& valid_position(t, x - 1, y)
        }),
{
    lemma_line_start(s, y as nat);
    lemma_line_end(s, line_start(s, y as nat));
    let r = line_start(s, y as nat) + x - 1;
    let t = s.remove(r);
    if between_return_and_feed(s, r) {
        assert(x == 1);
        lemma_backspace_joins(s, y, 0);
        lemma_line_start(t, y as nat);
        lemma_line_end(t, line_start(t, y as nat));
        assert forall|j: int| 0 <= j < line_count(t) implies lines_of(t)[j] == lines_of(
            s,
        ).remove(y)[j] by {
            lemma_backspace_joins(s, y, j as nat);
        }
        assert(lines_of(t) =~= lines_of(s).remove(y));
    } else {
        lemma_remove_char_line(s, x, y, y as nat);
        assert forall|k: int| 0 <= k < line_count(s) implies lines_of(t)[k] == lines_of(
            s,
        ).update(y, line_text(s, y as nat).remove(x - 1))[k] by {
            lemma_remove_char_line(s, x, y, k as nat);
        }
        assert(lines_of(t) =~= lines_of(s).update(y, line_text(s, y as nat).remove(x - 1)));
    }
}

/// Taking out the only character of a line that stands between a carriage
/// return and a line feed joins the two in one line break: the line is
/// gone, and the other lines are as they were.
pub proof fn lemma_backspace_joins(s: Seq<char>, y: int, j: nat)
    requires
        valid_position(s, 1, y),
        between_return_and_feed(s, line_start(s, y as nat)),
    ensures
        ({
            let t = s.remove(line_start(s, y as nat));
            &&& line_count(t) == line_count(s) - 1
            &&& y < line_count(t)
            &&& j < line_count(t) ==> line_text(t, j) == if j < y {
                line_text(s, j)
            } else {
                line_text(s, j + 1)
            }
        }),
{
    let a = line_start(s, y as nat);
    let e = line_end(s, a);
    lemma_line_start(s, y as nat);
    lemma_line_end(s, a);
    let t = s.remove(a);
    lemma_remove_breaks(s, a);
    assert(!is_line_break(s[a]));
    assert(t[a - 1] == s[a - 1]);
    assert(t[a] == s[a + 1]);
    assert(break_ends_at(s, a - 1));
    assert(!break_ends_at(t, a - 1));
    assert(!break_ends_at(s, a));
    assert(break_ends_at(s, a + 1));
    lemma_breaks_same_prefix(s, t, a - 1, a - 1);
    assert(breaks_before(t, a) == breaks_before(t, a - 1));
    assert(breaks_before(s, a) == breaks_before(s, a - 1) + 1);
    assert(breaks_before(s, a + 1) == breaks_before(s, a));
    assert(breaks_before(s, a + 2) == breaks_before(s, a + 1) + 1);
    lemma_breaks_shifted(s, t, a + 1, -1, s.len() as int);
    lemma_breaks_monotone(s, a + 2, s.len() as int);
    assert(line_count(t) == line_count(s) - 1);
    if j >= line_count(t) {
    } else if j < y {
        let u = line_start(s, j);
        let ek = line_end(s, u);
        lemma_line_start(s, j);
        lemma_line_end(s, u);
        lemma_lines_ordered(s, j, y as nat);
        lemma_breaks_same_prefix(s, t, a - 1, u);
        assert(t.subrange(u, ek) =~= s.subrange(u, ek));
        assert(t[ek] == s[ek]);
        lemma_same_line(s, j, t, j, u);
    } else {
        let k = j + 1;
        let u = line_start(s, k);
        let ek = line_end(s, u);
        lemma_line_start(s, k);
        lemma_line_end(s, u);
        lemma_lines_ordered(s, y as nat, k);
        lemma_line_end_unique(s, a, a + 1);
        lemma_breaks_shifted(s, t, a + 1, -1, u);
        assert(break_ends_at(t, (u - 1) - 1) == break_ends_at(s, u - 1));
        assert(t.subrange(u - 1, ek - 1) =~= s.subrange(u, ek));
        if ek < s.len() {
            assert(t[ek - 1] == s[ek]);
        }
        lemma_same_line(s, k, t, j, u - 1);
    }
}

} // verus!
