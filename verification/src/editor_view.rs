//! The drawing of an [`Editor`]: which part of its text is in view, and how
//! the text and the status bar below it are drawn to a [`Frame`].

use vstd::prelude::*;
use crate::config::wrap_mode;
use crate::editor::Editor;
use crate::tui::buffer::{lemma_overlaid_nothing, lemma_overlaid_step, overlaid, styled};
use crate::tui::frame::Frame;
use crate::tui::rect::{Bottom, Partition, Rect};
use crate::tui::style::{Color, Style};
use crate::tui::text::{Render, Text, lines_from, no_wrap_glyphs};

verus! {

/// The character for the digit `d`.
pub open spec fn digit_char(d: int) -> char {
    if d == 0 {
        '0'
    } else if d == 1 {
        '1'
    } else if d == 2 {
        '2'
    } else if d == 3 {
        '3'
    } else if d == 4 {
        '4'
    } else if d == 5 {
        '5'
    } else if d == 6 {
        '6'
    } else if d == 7 {
        '7'
    } else if d == 8 {
        '8'
    } else {
        '9'
    }
}

/// The decimal digits of `n`, the most significant first.
pub open spec fn digits_of(n: nat) -> Seq<char>
    decreases n,
{
    if n < 10 {
        seq![digit_char(n as int)]
    } else {
        digits_of(n / 10).push(digit_char((n % 10) as int))
    }
}

/// A number has at least one digit, and a number below a hundred thousand
/// has at most five.
pub proof fn lemma_digits_len(n: nat)
    ensures
        1 <= digits_of(n).len(),
        n < 100000 ==> digits_of(n).len() <= 5,
{
    reveal_with_fuel(digits_of, 6);
}

/// The character for a digit.
fn digit(d: u32) -> (c: char)
    requires
        d < 10,
    ensures
        c == digit_char(d as int),
{
    match d {
        0 => '0',
        1 => '1',
        2 => '2',
        3 => '3',
        4 => '4',
        5 => '5',
        6 => '6',
        7 => '7',
        8 => '8',
        _ => '9',
    }
}

/// The decimal digits of `n`, the most significant first.
pub fn decimal(n: u32) -> (r: Vec<char>)
    ensures
        r@ == digits_of(n as nat),
    decreases n,
{
    if n < 10 {
        let mut out: Vec<char> = Vec::new();
        out.push(digit(n));
        out
    } else {
        let mut out = decimal(n / 10);
        out.push(digit(n % 10));
        out
    }
}

/// What the status bar says of a cursor in column `column` of line `line`,
/// both counted from zero: the line and the column, counted from one, with
/// a colon between them.
pub open spec fn status_text(column: u16, line: u16) -> Seq<char> {
    digits_of((line + 1) as nat) + seq![':'] + digits_of((column + 1) as nat)
}

/// The status bar's style: black on white.
pub open spec fn status_style() -> Style {
    Style { fg: Color::Black, bg: Color::White, ..Style::plain() }
}

/// The symbols of the status bar in `region`: its text in the bottom row of
/// the region, from the fifteenth column before the region's width on. In a
/// region of less than fifteen columns the text starts left of the first
/// column, and what of it falls on columns that exist is shown.
pub open spec fn status_glyphs(region: Rect, text: Seq<char>) -> Map<(int, int), char> {
    status_glyphs_before(region, text, text.len() as int)
}

/// The first `n` symbols of the status bar in `region`.
pub open spec fn status_glyphs_before(region: Rect, text: Seq<char>, n: int) -> Map<
    (int, int),
    char,
> {
    Map::new(
        |p: (int, int)|
            p.1 == region.top + region.height - 1 && region.width - 15 <= p.0 < region.width - 15
                + n,
        |p: (int, int)| status_glyph(region, text, p.0),
    )
}

/// The character of the status bar's text that is shown in column `x`.
pub open spec fn status_glyph(region: Rect, text: Seq<char>, x: int) -> char {
    text[x - (region.width - 15)]
}

/// The status bar at the bottom of the editor, which shows where the cursor
/// is.
#[derive(Debug)]
struct StatusBar {}

impl StatusBar {
    /// Draws the status bar to `region`, for a cursor at `position`: the
    /// region gets the status bar's style, and its bottom row the text.
    fn render(&self, frame: &mut Frame, region: Rect, position: (u16, u16))
        requires
            region.height >= 1,
            region.top + region.height - 1 <= u16::MAX,
        ensures
            *final(final(frame).buffer) == *final(old(frame).buffer),
            final(frame).grid().region() == old(frame).grid().region(),
            final(frame).grid().well_formed(),
            final(frame).grid().cells() == overlaid(
                styled(
                    old(frame).grid().cells(),
                    old(frame).grid().region().width as int,
                    status_style(),
                    region,
                ),
                old(frame).grid().region().width as int,
                status_glyphs(region, status_text(position.0, position.1)),
            ),
    {
        let bottom = region.top + (region.height - 1);
        frame.set_style(Style::default().fg(Color::Black).bg(Color::White), region);
        let area = frame.size();
        let ghost start = frame.grid().cells();
        let ghost w = area.width as int;
        let ghost h = area.height as int;
        let mut text = decimal(position.1 as u32 + 1);
        text.push(':');
        let mut column = decimal(position.0 as u32 + 1);
        text.append(&mut column);
        let ghost chars = text@;
        proof {
            lemma_digits_len((position.1 + 1) as nat);
            lemma_digits_len((position.0 + 1) as nat);
            lemma_overlaid_nothing(start, w);
            assert(status_glyphs_before(region, chars, 0) =~= Map::empty());
        }
        let mut x: usize = 0;
        while x < text.len()
            invariant
                x <= text.len(),
                text@ == chars,
                chars.len() <= 11,
                bottom == region.top + region.height - 1,
                *final(frame.buffer) == *final(old(frame).buffer),
                frame.grid().region() == area,
                frame.grid().well_formed(),
                w == area.width,
                h == area.height,
                start.len() == w * h,
                frame.grid().cells() == overlaid(
                    start,
                    w,
                    status_glyphs_before(region, chars, x as int),
                ),
            decreases text.len() - x,
        {
            let c = text[x];
            proof {
                let before = status_glyphs_before(region, chars, x as int);
                let after = status_glyphs_before(region, chars, x + 1);
                assert(after =~= before.insert((region.width - 15 + x, bottom as int), c));
                lemma_overlaid_step(start, w, h, before, region.width - 15 + x, bottom as int, c);
            }
            let column = region.width as i32 - 15 + x as i32;
            if column >= 0 {
                frame.set_char(c, column as u16, bottom);
            }
            x += 1;
        }
    }
}

/// The line with which the view starts after the editor's place on the
/// screen got `height` rows, where the view started with line `view` and
/// the cursor is on line `line`: the view moves up to the cursor if the
/// cursor is above it, and down, so that the cursor is in the last row
/// above the status bar, if the cursor is below that row.
pub open spec fn scrolled(view: int, line: int, height: int) -> int {
    let top = if line < view {
        line
    } else {
        view
    };
    if line - top + 1 >= height {
        line + 2 - height
    } else {
        top
    }
}

/// After scrolling for a place of at least two rows, the cursor's line is
/// in view: it is one of the rows above the status bar.
pub proof fn lemma_scrolled_shows_cursor(view: int, line: int, height: int)
    requires
        0 <= view,
        0 <= line,
        height >= 2,
    ensures
        0 <= scrolled(view, line, height) <= line < scrolled(view, line, height) + height - 1,
{
}

/// An [`Editor`] that can be drawn: the editor, and the part of its text
/// that is in view.
#[derive(Debug)]
pub struct EditorView {
    /// The editor that is drawn.
    editor: Editor,
    /// The bottom status bar of the editor.
    status_bar: StatusBar,
    /// The column and the line of the text that are shown in the top left
    /// corner of the view.
    view_pos: (usize, usize),
}

impl EditorView {
    /// The editor that is drawn.
    pub closed spec fn editor_of(self) -> Editor {
        self.editor
    }

    /// The column and the line of the text that are shown in the top left
    /// corner of the view.
    pub closed spec fn corner(self) -> (usize, usize) {
        self.view_pos
    }

    /// The view of an editor, from the start of its text.
    pub fn new(editor: Editor) -> (r: EditorView)
        ensures
            r.editor_of() == editor,
            r.corner() == (0usize, 0usize),
    {
        EditorView { editor, status_bar: StatusBar {  }, view_pos: (0, 0) }
    }

    /// The editor that is drawn.
    pub fn editor(&self) -> (r: &Editor)
        ensures
            *r == self.editor_of(),
    {
        &self.editor
    }

    /// The editor that is drawn, to edit with.
    pub fn editor_mut(&mut self) -> (r: &mut Editor)
        ensures
            *r == old(self).editor_of(),
            final(self).editor_of() == *final(r),
            final(self).corner() == old(self).corner(),
    {
        &mut self.editor
    }

    /// The position of the cursor in the text, as column and line, cut to
    /// the sixteen bits of a place on the screen.
    pub fn selected_pos(&self) -> (r: (u16, u16))
        ensures
            r.0 == self.editor_of()@.column as u16,
            r.1 == self.editor_of()@.line as u16,
    {
        self.editor.cursor_pos()
    }

    /// The column and the line of the text that are shown in the top left
    /// corner of the view.
    pub fn view_pos(&self) -> (r: (usize, usize))
        ensures
            r == self.corner(),
    {
        self.view_pos
    }

    /// The place of the cursor on the screen, as column and row, where the
    /// view starts at the top left corner of the screen: the cursor's
    /// place in the text, counted from the corner of the view. There is no
    /// such place where the cursor is left of the view or above it, or too
    /// far from its corner for a place on the screen.
    pub fn cursor_on_screen(&self) -> (r: Option<(u16, u16)>)
        ensures
            r == if self.corner().0 <= self.editor_of()@.column <= self.corner().0 + u16::MAX
                && self.corner().1 <= self.editor_of()@.line <= self.corner().1 + u16::MAX {
                Some(
                    (
                        (self.editor_of()@.column - self.corner().0) as u16,
                        (self.editor_of()@.line - self.corner().1) as u16,
                    ),
                )
            } else {
                None
            },
    {
        let (column, line) = self.editor.selected_pos();
        if column >= self.view_pos.0 && line >= self.view_pos.1 {
            let across = column - self.view_pos.0;
            let down = line - self.view_pos.1;
            if across <= u16::MAX as usize && down <= u16::MAX as usize {
                return Some((across as u16, down as u16));
            }
        }
        None
    }

    /// Draws the editor to `region` of `frame`: the status bar to the bottom
    /// row of the region, and above it the text, from the first line in
    /// view on, in the configured wrap mode.
    pub fn render(&self, frame: &mut Frame, region: Rect)
        requires
            Bottom.accepts(region),
        ensures
            *final(final(frame).buffer) == *final(old(frame).buffer),
            final(frame).grid().region() == old(frame).grid().region(),
            final(frame).grid().well_formed(),
            final(frame).grid().cells() == overlaid(
                overlaid(
                    styled(
                        old(frame).grid().cells(),
                        old(frame).grid().region().width as int,
                        status_style(),
                        Bottom::bottom_row(region),
                    ),
                    old(frame).grid().region().width as int,
                    status_glyphs(
                        Bottom::bottom_row(region),
                        status_text(
                            self.editor_of()@.column as u16,
                            self.editor_of()@.line as u16,
                        ),
                    ),
                ),
                old(frame).grid().region().width as int,
                no_wrap_glyphs(
                    lines_from(self.editor_of()@.text, self.corner().1 as int),
                    Bottom::above(region),
                    Some('>'),
                ),
            ),
    {
        let regions = region.partition(Bottom);
        let bottom_bar = regions[0];
        let editor_area = regions[1];
        self.status_bar.render(frame, bottom_bar, self.selected_pos());
        let mut text = Text::new(self.editor.buffer(), self.view_pos.1);
        text.wrap(wrap_mode());
        text.render(frame, editor_area);
    }

    /// Moves the view so that the cursor's line is in it, for a place on the
    /// screen of the size `new_size`, given as width and height.
    pub fn resize(&mut self, new_size: (u16, u16))
        requires
            old(self).editor_of()@.line + 2 <= usize::MAX,
        ensures
            final(self).editor_of() == old(self).editor_of(),
            final(self).corner().0 == old(self).corner().0,
            final(self).corner().1 == scrolled(
                old(self).corner().1 as int,
                old(self).editor_of()@.line,
                new_size.1 as int,
            ),
    {
        let editor_pos = self.editor.selected_pos();
        if editor_pos.1 < self.view_pos.1 {
            self.view_pos.1 = editor_pos.1;
        }
        // One row more, because of the status bar in the last row.
        if editor_pos.1 - self.view_pos.1 + 1 >= new_size.1 as usize {
            self.view_pos.1 = editor_pos.1 + 2 - new_size.1 as usize;
        }
    }
}

} // verus!
