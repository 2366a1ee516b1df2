//! The rope that holds the text, as far as the editor uses it.
//!
//! The rope is the work of the `ropey` crate. Nothing in this file is
//! proved: each function hands its arguments to a function of that crate, and
//! its contract says what that function is documented to do.

use vstd::prelude::*;
use ropey::Rope;
use crate::editor::lines::{line_count, line_start};

verus! {

/// `ropey::Rope`, a text that can be changed at any place in logarithmic
/// time.
#[verifier::external_type_specification]
#[verifier::external_body]
pub struct ExRope(Rope);

/// The characters that a rope holds, in order.
pub uninterp spec fn rope_text(rope: Rope) -> Seq<char>;

/// `Clone` for `Rope`: the clone holds the characters that the rope holds.
pub assume_specification[ <Rope as Clone>::clone ](rope: &Rope) -> (copy: Rope)
    ensures
        rope_text(copy) == rope_text(*rope),
;

/// `Rope::new`: a rope that holds no character.
#[verifier::external_body]
pub(crate) fn rope_new() -> (rope: Rope)
    ensures
        rope_text(rope) == Seq::<char>::empty(),
{
    Rope::new()
}

/// `Rope::from_str`: a rope that holds the characters of `text`.
#[verifier::external_body]
pub(crate) fn rope_from_str(text: &str) -> (rope: Rope)
    ensures
        rope_text(rope) == text@,
{
    Rope::from_str(text)
}

/// `Rope::len_chars`: the number of characters in the rope.
#[verifier::external_body]
pub(crate) fn rope_len_chars(rope: &Rope) -> (n: usize)
    ensures
        n == rope_text(*rope).len(),
{
    rope.len_chars()
}

/// `Rope::len_lines`: the number of lines of the rope, which is one more
/// than its number of line breaks. The crate is built with its default
/// features, with which, as its documentation has it, line feed, vertical
/// tab, form feed, carriage return, next line, line separator and paragraph
/// separator each break a line, and a carriage return with a line feed after
/// it is one break.
#[verifier::external_body]
pub(crate) fn rope_len_lines(rope: &Rope) -> (n: usize)
    ensures
        n == line_count(rope_text(*rope)),
{
    rope.len_lines()
}

/// `Rope::line_to_char`: the index of the character at which the given line
/// starts, where the first line starts with the rope and each other line
/// after a line break; and the number of characters for the line one past
/// the last. It panics for a line further on, which is left out here.
#[verifier::external_body]
pub(crate) fn rope_line_to_char(rope: &Rope, line_idx: usize) -> (char_idx: usize)
    requires
        line_idx <= line_count(rope_text(*rope)),
    ensures
        char_idx == line_start(rope_text(*rope), line_idx as nat),
{
    rope.line_to_char(line_idx)
}

/// `Rope::char`: the character at the given index. It panics for an index
/// that is not below the number of characters, which is left out here.
#[verifier::external_body]
pub(crate) fn rope_char(rope: &Rope, char_idx: usize) -> (c: char)
    requires
        char_idx < rope_text(*rope).len(),
    ensures
        c == rope_text(*rope)[char_idx as int],
{
    rope.char(char_idx)
}

/// `Rope::insert_char`: puts `ch` into the rope so that it stands at the
/// given index. It panics for an index beyond the number of characters,
/// which is left out here, as is a rope so long that one character more
/// could not be counted.
#[verifier::external_body]
pub(crate) fn rope_insert_char(rope: &mut Rope, char_idx: usize, ch: char)
    requires
        char_idx <= rope_text(*old(rope)).len(),
        rope_text(*old(rope)).len() < usize::MAX,
    ensures
        rope_text(*final(rope)) == rope_text(*old(rope)).insert(char_idx as int, ch),
{
    rope.insert_char(char_idx, ch)
}

/// `Rope::remove`, for the range of one character: takes the character at
/// the given index out of the rope. It panics for a range that ends beyond
/// the number of characters, which is left out here.
#[verifier::external_body]
pub(crate) fn rope_remove_char(rope: &mut Rope, char_idx: usize)
    requires
        char_idx < rope_text(*old(rope)).len(),
    ensures
        rope_text(*final(rope)) == rope_text(*old(rope)).remove(char_idx as int),
{
    rope.remove(char_idx..=char_idx)
}

/// `Rope::slice`, and `String::from` for the slice: the characters of the
/// rope from `start` up to `end`, as a string. `slice` panics for a range
/// that ends before it starts or beyond the number of characters, which is
/// left out here.
#[verifier::external_body]
pub(crate) fn rope_substring(rope: &Rope, start: usize, end: usize) -> (text: String)
    requires
        start <= end <= rope_text(*rope).len(),
    ensures
        text@ == rope_text(*rope).subrange(start as int, end as int),
{
    String::from(rope.slice(start..end))
}

} // verus!
