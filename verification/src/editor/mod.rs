//! The text that is edited: how it falls into lines, the buffer that holds
//! it, and the [`Editor`] that keeps a cursor in it.

pub mod buffer;
pub mod edits;
pub mod lines;
pub mod rope;

use vstd::prelude::*;
use crate::config::Message;
use vstd::string::StrSliceExecFns;
use crate::editor::buffer::{Buffer, OpenError, ReadOutcome, is_newline};
use crate::editor::edits::{
    between_return_and_feed, lemma_backspace, lemma_insert_char, lemma_newline, line_break_at,
};
use crate::editor::lines::{
    is_line_break, lemma_line_end, lemma_line_start, line_count, line_len, line_start, line_text,
    lines_of, trailing_breaks, trimmed, valid_position,
};

verus! {

/// The two states of the editor: in the one keys are commands, in the other
/// they are text.
#[derive(Debug, Clone, Copy, PartialEq, Eq, Structural)]
pub enum Mode {
    /// Keys move the cursor and give commands.
    Normal,
    /// Keys are put into the text.
    Insert,
}

/// What the editor asks of the program around it after a message.
#[derive(Debug, Clone, Copy, PartialEq, Eq, Structural)]
pub enum Request {
    /// To go on with the next key.
    Continue,
    /// To end.
    Quit,
    /// To write the text to its file.
    Write,
}

/// What an editor is, apart from the file that its text belongs to: the
/// text, the place of the cursor in it, and the mode.
pub struct State {
    /// The characters of the text.
    pub text: Seq<char>,
    /// The column of the cursor: how many characters of its line are left
    /// of it.
    pub column: int,
    /// The line that the cursor is on.
    pub line: int,
    /// Whether keys are commands or text.
    pub mode: Mode,
}

impl State {
    /// Whether the cursor is at a place in the text: on a line that the
    /// text has, and at a column of that line or right after its last
    /// character.
    pub open spec fn valid(self) -> bool {
        valid_position(self.text, self.column, self.line)
    }

    /// The position in the text at which the cursor stands.
    pub open spec fn offset(self) -> int {
        line_start(self.text, self.line as nat) + self.column
    }

    /// The number of characters of the line that the cursor is on.
    pub open spec fn here(self) -> int {
        line_len(self.text, self.line as nat)
    }

    /// The state after `c`, a character that breaks no line, was put into
    /// the text: `c` is in the text at the cursor, and the cursor is one
    /// column on.
    pub open spec fn typed(self, c: char) -> State {
        State { text: self.text.insert(self.offset(), c), column: self.column + 1, ..self }
    }

    /// The state after the line was broken at the cursor: what breaks the
    /// line is in the text at the cursor, and the cursor is at the start of
    /// the line below.
    pub open spec fn broken(self) -> State {
        State {
            text: self.text.insert(self.offset(), line_break_at(self.text, self.offset())),
            column: 0,
            line: self.line + 1,
            ..self
        }
    }

    /// The state after the character before the cursor was erased: it is
    /// out of the text and the cursor is one column back. At the start of
    /// a line nothing is erased.
    pub open spec fn erased(self) -> State {
        if self.column == 0 {
            self
        } else {
            State { text: self.text.remove(self.offset() - 1), column: self.column - 1, ..self }
        }
    }

    /// The state after a move to the left: one column back, if there is
    /// one.
    pub open spec fn left(self) -> State {
        if self.column == 0 {
            self
        } else {
            State { column: self.column - 1, ..self }
        }
    }

    /// The state after a move to the right: one column on, if the line
    /// goes on.
    pub open spec fn right(self) -> State {
        if self.column < self.here() {
            State { column: self.column + 1, ..self }
        } else {
            self
        }
    }

    /// The cursor on line `line`, at its column or at the end of the line
    /// where the line is shorter than that.
    pub open spec fn on_line(self, line: int) -> State {
        State {
            line,
            column: if self.column > line_len(self.text, line as nat) {
                line_len(self.text, line as nat)
            } else {
                self.column
            },
            ..self
        }
    }

    /// The state after a move down: one line down, if there is one.
    pub open spec fn down(self) -> State {
        if self.line + 1 == line_count(self.text) {
            self
        } else {
            self.on_line(self.line + 1)
        }
    }

    /// The state after a move up: one line up, if there is one.
    pub open spec fn up(self) -> State {
        if self.line == 0 {
            self
        } else {
            self.on_line(self.line - 1)
        }
    }

    /// The state after a message was applied. A character that breaks a
    /// line breaks the line of the cursor, as a request for a line break
    /// does; every other character goes into the text.
    pub open spec fn step(self, message: Message) -> State {
        match message {
            Message::Quit | Message::Write | Message::Nothing => self,
            Message::Enter => self.broken(),
            Message::Backspace => self.erased(),
            Message::Left => self.left(),
            Message::Right => self.right(),
            Message::Up => self.up(),
            Message::Down => self.down(),
            Message::Char(c) => if is_line_break(c) {
                self.broken()
            } else {
                self.typed(c)
            },
            Message::Mode(mode) => State { mode, ..self },
        }
    }

    /// The start of a text is a place in it.
    pub proof fn lemma_origin_is_valid(text: Seq<char>, mode: Mode)
        ensures
            (State { text, column: 0, line: 0, mode }).valid(),
    {
        lemma_line_start(text, 0);
        lemma_line_end(text, 0);
    }

    /// A character that breaks no line, put into the text at a valid cursor,
    /// goes into the line of the cursor at its column, and the cursor is
    /// valid then.
    pub proof fn lemma_typed(self, c: char)
        requires
            self.valid(),
            !is_line_break(c),
        ensures
            self.typed(c).valid(),
            lines_of(self.typed(c).text) == lines_of(self.text).update(
                self.line,
                line_text(self.text, self.line as nat).insert(self.column, c),
            ),
    {
        lemma_insert_char(self.text, self.column, self.line, c);
    }

    /// A line break at a valid cursor splits the line of the cursor in two at
    /// its column and leaves the other lines as they are, and the cursor is
    /// valid then.
    pub proof fn lemma_broken(self)
        requires
            self.valid(),
        ensures
            self.broken().valid(),
            lines_of(self.broken().text) == lines_of(self.text).take(self.line) + seq![
                line_text(self.text, self.line as nat).take(self.column),
                line_text(self.text, self.line as nat).skip(self.column),
            ] + lines_of(self.text).skip(self.line + 1),
    {
        lemma_newline(self.text, self.column, self.line);
    }

    /// After the character before a valid cursor was erased, the cursor is
    /// valid. The character is gone from the line of the cursor; where it
    /// was all that stood between a carriage return and a line feed, these
    /// two become one line break, and the line is gone.
    pub proof fn lemma_erased(self)
        requires
            self.valid(),
        ensures
            self.erased().valid(),
            self.column > 0 ==> lines_of(self.erased().text) == if between_return_and_feed(
                self.text,
                self.offset() - 1,
            ) {
                lines_of(self.text).remove(self.line)
            } else {
                lines_of(self.text).update(
                    self.line,
                    line_text(self.text, self.line as nat).remove(self.column - 1),
                )
            },
    {
        if self.column > 0 {
            lemma_backspace(self.text, self.column, self.line);
        }
    }

    /// A move of a valid cursor leaves it valid.
    pub proof fn lemma_moved(self)
        requires
            self.valid(),
        ensures
            self.left().valid(),
            self.right().valid(),
            self.up().valid(),
            self.down().valid(),
    {
        if self.line > 0 {
            lemma_line_start(self.text, (self.line - 1) as nat);
            lemma_line_end(self.text, line_start(self.text, (self.line - 1) as nat));
        }
        if self.line + 1 < line_count(self.text) {
            lemma_line_start(self.text, (self.line + 1) as nat);
            lemma_line_end(self.text, line_start(self.text, (self.line + 1) as nat));
        }
    }

    /// Whatever message is applied at a valid cursor, the cursor is valid
    /// after it.
    pub proof fn lemma_step_keeps_valid(self, message: Message)
        requires
            self.valid(),
        ensures
            self.step(message).valid(),
    {
        self.lemma_moved();
        self.lemma_erased();
        self.lemma_broken();
        if let Message::Char(c) = message {
            if !is_line_break(c) {
                self.lemma_typed(c);
            }
        }
    }
}

/// `line` without the line break characters at its end.
pub fn trim_newlines(line: &str) -> (r: &str)
    ensures
        r@ == trimmed(line@),
{
    let mut end = line.unicode_len();
    assert(line@.take(end as int) == line@);
    while end > 0 && is_newline(line.get_char(end - 1))
        invariant
            end <= line@.len(),
            trailing_breaks(line@) == trailing_breaks(line@.take(end as int)) + (line@.len() - end),
        decreases end,
    {
        proof {
            let now = line@.take(end as int);
            assert(now.last() == line@[end - 1]);
            assert(now.drop_last() == line@.take(end - 1));
        }
        end -= 1;
    }
    proof {
        let now = line@.take(end as int);
        if end > 0 {
            assert(now.last() == line@[end - 1]);
        }
        assert(trailing_breaks(now) == 0);
    }
    line.substring_char(0, end)
}

/// A text with the cursor that edits it.
#[derive(Debug)]
pub struct Editor {
    /// The text that is edited.
    buffer: Buffer,
    /// The position of the cursor in the text, as column and line. This is
    /// a place in the text, not on the screen.
    selected_pos: (usize, usize),
    /// Whether keys are commands or text.
    mode: Mode,
}

impl View for Editor {
    type V = State;

    closed spec fn view(&self) -> State {
        State {
            text: self.buffer@,
            column: self.selected_pos.0 as int,
            line: self.selected_pos.1 as int,
            mode: self.mode,
        }
    }
}

impl Editor {
    /// The path of the file that the text belongs to, if it belongs to one.
    pub closed spec fn path(self) -> Option<Seq<char>> {
        self.buffer.path()
    }

    /// Whether the cursor is at a place in the text.
    pub open spec fn well_formed(self) -> bool {
        self@.valid()
    }

    /// The editor of a buffer, with the cursor at the start of the text and
    /// keys taken as commands.
    pub fn new(buffer: Buffer) -> (r: Editor)
        ensures
            r@ == (State { text: buffer@, column: 0, line: 0, mode: Mode::Normal }),
            r.path() == buffer.path(),
            r.well_formed(),
    {
        proof {
            State::lemma_origin_is_valid(buffer@, Mode::Normal);
        }
        Editor { buffer, selected_pos: (0, 0), mode: Mode::Normal }
    }

    /// The editor for the file `fname`, given how reading that file ended:
    /// an editor of the text of the file, or of an empty text where there
    /// is no such file yet, and no editor where the file could not be read.
    pub fn open(fname: &str, outcome: ReadOutcome) -> (r: Result<Editor, OpenError>)
        ensures
            match outcome {
                ReadOutcome::Contents(text) => r is Ok && r->Ok_0@ == (State {
                    text: text@,
                    column: 0,
                    line: 0,
                    mode: Mode::Normal,
                }),
                ReadOutcome::NotFound => r is Ok && r->Ok_0@ == (State {
                    text: Seq::empty(),
                    column: 0,
                    line: 0,
                    mode: Mode::Normal,
                }),
                ReadOutcome::PermissionDenied => r is Err && r->Err_0 == OpenError::PermissionDenied,
                ReadOutcome::Failed => r is Err && r->Err_0 == OpenError::Unknown,
            },
            r is Ok ==> r->Ok_0.path() == Some(fname@) && r->Ok_0.well_formed(),
    {
        match Buffer::open(fname, outcome) {
            Ok(buffer) => Ok(Editor::new(buffer)),
            Err(e) => Err(e),
        }
    }

    /// The text that is edited.
    pub fn buffer(&self) -> (r: &Buffer)
        ensures
            r@ == self@.text,
            r.path() == self.path(),
    {
        &self.buffer
    }

    /// The position of the cursor in the text, as column and line.
    pub fn selected_pos(&self) -> (r: (usize, usize))
        ensures
            r.0 == self@.column,
            r.1 == self@.line,
    {
        self.selected_pos
    }

    /// The position of the cursor in the text, as column and line, cut to
    /// the sixteen bits of a place on the screen.
    pub fn cursor_pos(&self) -> (r: (u16, u16))
        ensures
            r.0 == self@.column as u16,
            r.1 == self@.line as u16,
    {
        (
            #[verifier::truncate]
            (self.selected_pos.0 as u16),
            #[verifier::truncate]
            (self.selected_pos.1 as u16),
        )
    }

    /// Whether keys are commands or text.
    pub fn mode(&self) -> (r: Mode)
        ensures
            r == self@.mode,
    {
        self.mode
    }

    /// Makes keys commands or text.
    pub fn set_mode(&mut self, mode: Mode)
        ensures
            final(self)@ == old(self)@.step(Message::Mode(mode)),
            final(self).path() == old(self).path(),
    {
        self.mode = mode;
    }

    /// Whether the cursor is at a place in the text.
    pub fn is_well_formed(&self) -> (r: bool)
        ensures
            r == self.well_formed(),
    {
        self.buffer.is_valid_position(self.selected_pos.0, self.selected_pos.1)
    }

    /// Whether the text is short enough to take one character more.
    pub fn has_room(&self) -> (r: bool)
        ensures
            r == (self@.text.len() < usize::MAX),
    {
        self.buffer.len_chars() < usize::MAX
    }

    /// Puts `c`, a character that breaks no line, into the text at the
    /// cursor, and moves the cursor one column on. The cursor is then at a
    /// place in the text.
    pub fn push(&mut self, c: char)
        requires
            old(self).well_formed(),
            !is_line_break(c),
            old(self)@.text.len() < usize::MAX,
        ensures
            final(self)@ == old(self)@.typed(c),
            final(self).path() == old(self).path(),
            final(self).well_formed(),
    {
        self.buffer.push(c, &mut self.selected_pos);
    }

    /// Takes the character before the cursor out of the text and moves the
    /// cursor one column back; at the start of a line, nothing happens. The
    /// cursor is then at a place in the text.
    pub fn backspace(&mut self)
        requires
            old(self).well_formed(),
        ensures
            final(self)@ == old(self)@.erased(),
            final(self).path() == old(self).path(),
            final(self).well_formed(),
    {
        self.buffer.backspace(&mut self.selected_pos);
    }

    /// Splits the line of the cursor in two at the cursor, and moves the
    /// cursor to the start of the second of them. The cursor is then at a
    /// place in the text.
    pub fn newline(&mut self)
        requires
            old(self).well_formed(),
            old(self)@.text.len() < usize::MAX,
        ensures
            final(self)@ == old(self)@.broken(),
            final(self).path() == old(self).path(),
            final(self).well_formed(),
    {
        self.buffer.newline(&mut self.selected_pos);
    }

    /// What is to be written to disk: the path of the file and the whole
    /// text, and nothing where the text belongs to no file.
    pub fn write(&self) -> (r: Option<(String, String)>)
        ensures
            r is Some == self.path() is Some,
            r is Some ==> r->Some_0.0@ == self.path()->Some_0 && r->Some_0.1@ == self@.text,
    {
        self.buffer.write()
    }

    /// The lines of the text, without their line breaks, in order.
    pub fn lines(&self) -> (r: Vec<String>)
        ensures
            r@.len() == line_count(self@.text),
            forall|y: int| 0 <= y < r@.len() ==> (#[trigger] r@[y])@ == line_text(self@.text, y as nat),
    {
        self.buffer.lines()
    }

    /// The whole text.
    pub fn text(&self) -> (r: String)
        ensures
            r@ == self@.text,
    {
        self.buffer.text()
    }

    /// Moves the cursor one column to the left, unless it is at the start of
    /// its line.
    pub fn move_left(&mut self)
        ensures
            final(self)@ == old(self)@.left(),
            final(self).path() == old(self).path(),
            old(self).well_formed() ==> final(self).well_formed(),
    {
        if self.selected_pos.0 != 0 {
            self.selected_pos.0 -= 1;
        }
    }

    /// Moves the cursor one column to the right, unless it is at the end of
    /// its line.
    pub fn move_right(&mut self)
        requires
            old(self).well_formed(),
        ensures
            final(self)@ == old(self)@.right(),
            final(self).path() == old(self).path(),
            final(self).well_formed(),
    {
        if self.selected_pos.0 < self.buffer.line_len(self.selected_pos.1) {
            self.selected_pos.0 += 1;
        }
    }

    /// Moves the cursor one line down, unless it is on the last line. Where
    /// the line below is shorter than the cursor's column, the cursor goes
    /// to the end of that line.
    pub fn move_down(&mut self)
        requires
            old(self).well_formed(),
        ensures
            final(self)@ == old(self)@.down(),
            final(self).path() == old(self).path(),
            final(self).well_formed(),
    {
        proof {
            self@.lemma_moved();
        }
        if self.selected_pos.1 == self.buffer.len_lines() - 1 {
            return ;
        }
        self.selected_pos.1 += 1;
        let line_len = self.buffer.line_len(self.selected_pos.1);
        if self.selected_pos.0 > line_len {
            self.selected_pos.0 = line_len;
        }
    }

    /// Moves the cursor one line up, unless it is on the first line. Where
    /// the line above is shorter than the cursor's column, the cursor goes
    /// to the end of that line.
    pub fn move_up(&mut self)
        requires
            old(self).well_formed(),
        ensures
            final(self)@ == old(self)@.up(),
            final(self).path() == old(self).path(),
            final(self).well_formed(),
    {
        proof {
            self@.lemma_moved();
        }
        if self.selected_pos.1 != 0 {
            self.selected_pos.1 -= 1;
            let line_len = self.buffer.line_len(self.selected_pos.1);
            if self.selected_pos.0 > line_len {
                self.selected_pos.0 = line_len;
            }
        }
    }

    /// Applies a message: edits the text, moves the cursor or changes the
    /// mode as the message asks, and says what is left for the program
    /// around the editor to do. A character that breaks a line breaks the
    /// line of the cursor, as a request for a line break does. The cursor is
    /// at a place in the text afterwards, whatever the message.
    pub fn apply(&mut self, message: Message) -> (r: Request)
        requires
            old(self).well_formed(),
            message is Char || message is Enter ==> old(self)@.text.len() < usize::MAX,
        ensures
            final(self)@ == old(self)@.step(message),
            final(self).path() == old(self).path(),
            final(self).well_formed(),
            r == match message {
                Message::Quit => Request::Quit,
                Message::Write => Request::Write,
                _ => Request::Continue,
            },
    {
        match message {
            Message::Quit => {
                return Request::Quit;
            },
            Message::Write => {
                return Request::Write;
            },
            Message::Enter => self.newline(),
            Message::Backspace => self.backspace(),
            Message::Left => self.move_left(),
            Message::Right => self.move_right(),
            Message::Up => self.move_up(),
            Message::Down => self.move_down(),
            Message::Char(c) => if is_newline(c) {
                self.newline()
            } else {
                self.push(c)
            },
            Message::Mode(m) => self.set_mode(m),
            Message::Nothing => {},
        }
        Request::Continue
    }
}

} // verus!
