//! A [`Buffer`] is one text that is being edited, and the file that it
//! belongs to, if it belongs to one.

use vstd::prelude::*;
use ropey::Rope;
use crate::editor::edits::{
    between_return_and_feed, lemma_backspace, lemma_insert_char, lemma_newline, line_break_at,
};
use crate::editor::lines::{
    is_line_break, lemma_breaks_bounded, lemma_line_end, lemma_line_shape, lemma_line_start,
    lemma_trimmed_line, line_count, line_end, line_len, line_start, line_text, lines_of,
    valid_position,
};
use crate::editor::trim_newlines;
use crate::editor::rope::{
    rope_char, rope_from_str, rope_insert_char, rope_len_chars, rope_len_lines, rope_line_to_char,
    rope_new, rope_remove_char, rope_substring, rope_text,
};

verus! {

/// Whether `c` is one of the characters that break a line.
pub fn is_newline(c: char) -> (r: bool)
    ensures
        r == is_line_break(c),
{
    c == '\u{000A}' || c == '\u{000B}' || c == '\u{000C}' || c == '\u{000D}' || c == '\u{0085}'
        || c == '\u{2028}' || c == '\u{2029}'
}

/// How an attempt to read the file of a buffer ended.
#[derive(Debug)]
pub enum ReadOutcome {
    /// The file was read, and held this text.
    Contents(String),
    /// There is no such file.
    NotFound,
    /// The file may not be read.
    PermissionDenied,
    /// The file could not be read, for another reason.
    Failed,
}

/// Why a buffer could not be opened.
#[derive(Debug, Clone, Copy, PartialEq, Eq, Structural)]
pub enum OpenError {
    /// The file may not be read.
    PermissionDenied,
    /// The file could not be read, for another reason.
    Unknown,
}

/// A single buffer of text. It may belong to a file, or be free-floating.
#[derive(Debug)]
pub struct Buffer {
    /// The text of the buffer.
    text: Rope,
    /// The path of the file on disk, if the buffer belongs to one.
    file: Option<String>,
}

impl View for Buffer {
    type V = Seq<char>;

    /// The characters of the text.
    closed spec fn view(&self) -> Seq<char> {
        rope_text(self.text)
    }
}

impl Clone for Buffer {
    fn clone(&self) -> (r: Self)
        ensures
            r@ == self@,
            r.path() == self.path(),
    {
        let file = match &self.file {
            Some(f) => Some(f.clone()),
            None => None,
        };
        Buffer { text: self.text.clone(), file }
    }
}

impl Buffer {
    /// The path of the file that the buffer belongs to, if it belongs to
    /// one.
    pub closed spec fn path(self) -> Option<Seq<char>> {
        match self.file {
            Some(f) => Some(f@),
            None => None,
        }
    }

    /// Whether `self` is what opening the file `fname` gives, where reading
    /// that file ended in `outcome`: the text of the file, an empty text
    /// where there is no such file yet, and no buffer in the other cases.
    pub open spec fn opened(fname: Seq<char>, outcome: ReadOutcome, r: Result<Buffer, OpenError>) -> bool {
        match outcome {
            ReadOutcome::Contents(text) => r is Ok && r->Ok_0@ == text@ && r->Ok_0.path() == Some(
                fname,
            ),
            ReadOutcome::NotFound => r is Ok && r->Ok_0@ == Seq::<char>::empty() && r->Ok_0.path()
                == Some(fname),
            ReadOutcome::PermissionDenied => r == Err::<Buffer, OpenError>(
                OpenError::PermissionDenied,
            ),
            ReadOutcome::Failed => r == Err::<Buffer, OpenError>(OpenError::Unknown),
        }
    }

    /// What is to be written to disk for the buffer: the path of its file
    /// and its text, and nothing for a buffer without a file.
    pub open spec fn written(self) -> Option<(Seq<char>, Seq<char>)> {
        match self.path() {
            Some(path) => Some((path, self@)),
            None => None,
        }
    }

    /// An empty buffer that belongs to no file.
    pub fn empty() -> (r: Buffer)
        ensures
            r@ == Seq::<char>::empty(),
            r.path() is None,
    {
        Buffer { text: rope_new(), file: None }
    }

    /// The buffer for the file `fname`, given how reading that file ended.
    ///
    /// A file that does not exist yet gives an empty buffer that belongs to
    /// it; a file that could not be read gives no buffer.
    pub fn open(fname: &str, outcome: ReadOutcome) -> (r: Result<Buffer, OpenError>)
        ensures
            Buffer::opened(fname@, outcome, r),
    {
        match outcome {
            ReadOutcome::Contents(text) => Ok(
                Buffer { text: rope_from_str(text.as_str()), file: Some(fname.to_owned()) },
            ),
            ReadOutcome::NotFound => Ok(Buffer { text: rope_new(), file: Some(fname.to_owned()) }),
            ReadOutcome::PermissionDenied => Err(OpenError::PermissionDenied),
            ReadOutcome::Failed => Err(OpenError::Unknown),
        }
    }

    /// A buffer that is written to its file and opened again from what was
    /// written has the text and the lines that it had.
    pub proof fn lemma_write_then_open(b: Buffer, reopened: Result<Buffer, OpenError>, text: String)
        requires
            b.written() is Some,
            text@ == b.written()->Some_0.1,
            Buffer::opened(b.written()->Some_0.0, ReadOutcome::Contents(text), reopened),
        ensures
            reopened is Ok,
            reopened->Ok_0@ == b@,
            reopened->Ok_0.path() == b.path(),
            lines_of(reopened->Ok_0@) == lines_of(b@),
    {
    }

    /// The number of characters of the text.
    pub fn len_chars(&self) -> (n: usize)
        ensures
            n == self@.len(),
    {
        rope_len_chars(&self.text)
    }

    /// The number of lines of the text.
    pub fn len_lines(&self) -> (n: usize)
        ensures
            n == line_count(self@),
            n >= 1,
    {
        rope_len_lines(&self.text)
    }

    /// The number of characters of line `y`, its line break not counted.
    pub fn line_len(&self, y: usize) -> (n: usize)
        requires
            y < line_count(self@),
        ensures
            n == line_len(self@, y as nat),
    {
        let lines = rope_len_lines(&self.text);
        let chars = rope_len_chars(&self.text);
        let start = rope_line_to_char(&self.text, y);
        let mut end = rope_line_to_char(&self.text, y + 1);
        proof {
            lemma_line_shape(self@, y as nat);
        }
        while end > start && is_newline(rope_char(&self.text, end - 1))
            invariant
                start <= end <= chars,
                chars == self@.len(),
                start == line_start(self@, y as nat),
                line_end(self@, start as int) <= end,
                forall|i: int| start <= i < line_end(self@, start as int) ==> !is_line_break(self@[i]),
                forall|i: int| line_end(self@, start as int) <= i < end ==> is_line_break(self@[i]),
            decreases end,
        {
            end -= 1;
        }
        end - start
    }

    /// The character in column `x` of line `y`.
    pub fn char_at(&self, x: usize, y: usize) -> (c: char)
        requires
            y < line_count(self@),
            x < line_len(self@, y as nat),
        ensures
            c == line_text(self@, y as nat)[x as int],
    {
        proof {
            lemma_line_start(self@, y as nat);
            lemma_line_end(self@, line_start(self@, y as nat));
        }
        let chars = rope_len_chars(&self.text);
        let start = rope_line_to_char(&self.text, y);
        rope_char(&self.text, start + x)
    }

    /// Whether column `x` of line `y` is a place in the text.
    pub fn is_valid_position(&self, x: usize, y: usize) -> (r: bool)
        ensures
            r == valid_position(self@, x as int, y as int),
    {
        y < self.len_lines() && x <= self.line_len(y)
    }

    /// Line `y` of the text, without its line break.
    pub fn line(&self, y: usize) -> (r: String)
        requires
            y < line_count(self@),
        ensures
            r@ == line_text(self@, y as nat),
    {
        let n = self.line_len(y);
        let start = rope_line_to_char(&self.text, y);
        proof {
            lemma_line_start(self@, y as nat);
            lemma_line_end(self@, start as int);
        }
        let chars = rope_len_chars(&self.text);
        rope_substring(&self.text, start, start + n)
    }

    /// Line `y` of the text with its line break, if it has one.
    pub fn raw_line(&self, y: usize) -> (r: String)
        requires
            y < line_count(self@),
        ensures
            r@ == self@.subrange(
                line_start(self@, y as nat),
                line_start(self@, (y + 1) as nat),
            ),
    {
        proof {
            lemma_line_shape(self@, y as nat);
        }
        let lines = rope_len_lines(&self.text);
        let start = rope_line_to_char(&self.text, y);
        let end = rope_line_to_char(&self.text, y + 1);
        rope_substring(&self.text, start, end)
    }

    /// The lines of the text, without their line breaks, in order.
    pub fn lines(&self) -> (r: Vec<String>)
        ensures
            r@.len() == line_count(self@),
            forall|y: int| 0 <= y < r@.len() ==> (#[trigger] r@[y])@ == line_text(self@, y as nat),
    {
        let count = self.len_lines();
        let mut out: Vec<String> = Vec::new();
        let mut y: usize = 0;
        while y < count
            invariant
                y <= count,
                count == line_count(self@),
                out@.len() == y,
                forall|k: int| 0 <= k < y ==> (#[trigger] out@[k])@ == line_text(self@, k as nat),
            decreases count - y,
        {
            let raw = self.raw_line(y);
            proof {
                lemma_trimmed_line(self@, y as nat);
            }
            out.push(trim_newlines(raw.as_str()).to_owned());
            y += 1;
        }
        out
    }

    /// Puts `c`, a character that breaks no line, into the text at the
    /// position `pos`, and moves `pos` one column on: the character goes into
    /// the line of the position, and the new position is valid.
    ///
    /// To break a line, use [`Buffer::newline`].
    pub fn push(&mut self, c: char, pos: &mut (usize, usize))
        requires
            valid_position(old(self)@, old(pos).0 as int, old(pos).1 as int),
            !is_line_break(c),
            old(self)@.len() < usize::MAX,
        ensures
            final(self).path() == old(self).path(),
            final(self)@ == old(self)@.insert(
                line_start(old(self)@, old(pos).1 as nat) + old(pos).0,
                c,
            ),
            final(pos).0 == old(pos).0 + 1,
            final(pos).1 == old(pos).1,
            valid_position(final(self)@, final(pos).0 as int, final(pos).1 as int),
            lines_of(final(self)@) == lines_of(old(self)@).update(
                old(pos).1 as int,
                line_text(old(self)@, old(pos).1 as nat).insert(old(pos).0 as int, c),
            ),
    {
        let (x, y) = *pos;
        proof {
            lemma_line_start(self@, y as nat);
            lemma_line_end(self@, line_start(self@, y as nat));
            lemma_insert_char(self@, x as int, y as int, c);
        }
        let char_idx = rope_line_to_char(&self.text, y) + x;
        rope_insert_char(&mut self.text, char_idx, c);
        *pos = (x + 1, y);
    }

    /// Takes the character before the position `pos` out of the text, and
    /// moves `pos` one column back. At the start of a line nothing happens:
    /// the line is not joined to the one above.
    ///
    /// The new position is valid. The character goes out of the line of the
    /// position; where it was all that stood between a carriage return and
    /// a line feed, these two become one line break, and the line is gone.
    pub fn backspace(&mut self, pos: &mut (usize, usize))
        requires
            valid_position(old(self)@, old(pos).0 as int, old(pos).1 as int),
        ensures
            final(self).path() == old(self).path(),
            valid_position(final(self)@, final(pos).0 as int, final(pos).1 as int),
            old(pos).0 == 0 ==> final(self)@ == old(self)@ && *final(pos) == *old(pos),
            old(pos).0 > 0 ==> {
                let at = line_start(old(self)@, old(pos).1 as nat) + old(pos).0 - 1;
                &&& final(self)@ == old(self)@.remove(at)
                &&& final(pos).0 == old(pos).0 - 1
                &&& final(pos).1 == old(pos).1
                &&& lines_of(final(self)@) == if between_return_and_feed(old(self)@, at) {
                    lines_of(old(self)@).remove(old(pos).1 as int)
                } else {
                    lines_of(old(self)@).update(
                        old(pos).1 as int,
                        line_text(old(self)@, old(pos).1 as nat).remove(old(pos).0 - 1),
                    )
                }
            },
    {
        let (x, y) = *pos;
        if x == 0 {
            return ;
        }
        proof {
            lemma_line_start(self@, y as nat);
            lemma_line_end(self@, line_start(self@, y as nat));
            lemma_backspace(self@, x as int, y as int);
        }
        let chars = rope_len_chars(&self.text);
        let char_idx = rope_line_to_char(&self.text, y) + x - 1;
        rope_remove_char(&mut self.text, char_idx);
        *pos = (x - 1, y);
    }

    /// Breaks the line at the position `pos`, and moves `pos` to the start of
    /// the line below: the line of the position is split in two at the
    /// column, the other lines stay as they are, and the new position is
    /// valid.
    ///
    /// What breaks the line is a line feed. Only right after a carriage
    /// return that ends the line above it is a carriage return, since a line
    /// feed there would join the line break above and split nothing.
    pub fn newline(&mut self, pos: &mut (usize, usize))
        requires
            valid_position(old(self)@, old(pos).0 as int, old(pos).1 as int),
            old(self)@.len() < usize::MAX,
        ensures
            final(self).path() == old(self).path(),
            final(self)@ == old(self)@.insert(
                line_start(old(self)@, old(pos).1 as nat) + old(pos).0,
                line_break_at(old(self)@, line_start(old(self)@, old(pos).1 as nat) + old(pos).0),
            ),
            final(pos).0 == 0,
            final(pos).1 == old(pos).1 + 1,
            valid_position(final(self)@, final(pos).0 as int, final(pos).1 as int),
            lines_of(final(self)@) == lines_of(old(self)@).take(old(pos).1 as int) + seq![
                line_text(old(self)@, old(pos).1 as nat).take(old(pos).0 as int),
                line_text(old(self)@, old(pos).1 as nat).skip(old(pos).0 as int),
            ] + lines_of(old(self)@).skip(old(pos).1 + 1),
    {
        let (x, y) = *pos;
        proof {
            lemma_line_start(self@, y as nat);
            lemma_line_end(self@, line_start(self@, y as nat));
            lemma_breaks_bounded(self@, self@.len() as int);
            lemma_newline(self@, x as int, y as int);
        }
        let char_idx = rope_line_to_char(&self.text, y) + x;
        let after_return = char_idx > 0 && rope_char(&self.text, char_idx - 1) == '\u{000D}';
        let line_break = if after_return {
            '\u{000D}'
        } else {
            '\u{000A}'
        };
        rope_insert_char(&mut self.text, char_idx, line_break);
        *pos = (0, y + 1);
    }

    /// The whole text.
    pub fn text(&self) -> (r: String)
        ensures
            r@ == self@,
    {
        let n = rope_len_chars(&self.text);
        let r = rope_substring(&self.text, 0, n);
        assert(self@.subrange(0, n as int) == self@);
        r
    }

    /// The path of the file that the buffer belongs to, if it belongs to
    /// one.
    pub fn file(&self) -> (r: Option<String>)
        ensures
            r is Some == self.path() is Some,
            r is Some ==> r->Some_0@ == self.path()->Some_0,
    {
        match &self.file {
            Some(f) => Some(f.clone()),
            None => None,
        }
    }

    /// What is to be written to disk for the buffer: the path of its file
    /// and its whole text. A buffer that belongs to no file is not written.
    pub fn write(&self) -> (r: Option<(String, String)>)
        ensures
            r is Some == self.written() is Some,
            r is Some ==> r->Some_0.0@ == self.written()->Some_0.0 && r->Some_0.1@
                == self.written()->Some_0.1,
    {
        match &self.file {
            Some(f) => Some((f.clone(), self.text())),
            None => None,
        }
    }
}

} // verus!
