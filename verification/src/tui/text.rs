//! [`Text`] and [`SingleText`]: the pieces of text that can be drawn to a
//! [`Frame`], and [`Render`], which is what they have in common.

use vstd::prelude::*;
use vstd::string::StrSliceExecFns;
use crate::config::WrapMode;
use crate::editor::buffer::Buffer;
use crate::editor::lines::{
    lemma_line_end, lemma_line_start, line_count, line_len, line_start, line_text, lines_of,
};
use crate::tui::buffer::{lemma_overlaid_nothing, lemma_overlaid_step, overlaid};
use crate::tui::frame::Frame;
use crate::tui::rect::Rect;

verus! {

/// What can be drawn to a region of a [`Frame`].
pub trait Render {
    /// The regions that this can be drawn to.
    spec fn fits(&self, region: Rect) -> bool;

    /// The symbols that drawing this to `region` puts on the frame, each
    /// with its column and row.
    spec fn glyphs(&self, region: Rect) -> Map<(int, int), char>;

    /// Draws this to `region` of `frame`: the symbols go to those of their
    /// places that the frame has, and the styles of the frame stay.
    fn render(&self, frame: &mut Frame, region: Rect)
        requires
            self.fits(region),
        ensures
            *final(final(frame).buffer) == *final(old(frame).buffer),
            final(frame).grid().region() == old(frame).grid().region(),
            final(frame).grid().well_formed(),
            final(frame).grid().cells() == overlaid(
                old(frame).grid().cells(),
                old(frame).grid().region().width as int,
                self.glyphs(region),
            ),
    ;
}

/// Whether a text whose lines are `lines`, drawn to `region` without
/// wrapping, has a symbol for column `x` of row `y`: the place is in the
/// region, the text has a line for the row, and the line has a character
/// for the column.
pub open spec fn shows(lines: Seq<Seq<char>>, region: Rect, x: int, y: int) -> bool {
    &&& region.has_cell(x, y)
    &&& y - region.top < lines.len()
    &&& x - region.left < lines[y - region.top].len()
}

/// The symbol that a text whose lines are `lines`, drawn to `region`
/// without wrapping, has for column `x` of row `y`: the character of the
/// line; but in the last column of the region, for a line that is longer
/// than the region is wide, the marker, if there is one.
pub open spec fn glyph_at(
    lines: Seq<Seq<char>>,
    region: Rect,
    marker: Option<char>,
    x: int,
    y: int,
) -> char {
    let line = lines[y - region.top];
    if marker is Some && line.len() > region.width && x - region.left == region.width - 1 {
        marker->Some_0
    } else {
        line[x - region.left]
    }
}

/// The symbols of a text whose lines are `lines`, drawn to `region` without
/// wrapping: line by line from the top of the region, each line from the
/// left, cut off at the right and at the bottom.
pub open spec fn no_wrap_glyphs(
    lines: Seq<Seq<char>>,
    region: Rect,
    marker: Option<char>,
) -> Map<(int, int), char> {
    Map::new(
        |p: (int, int)| shows(lines, region, p.0, p.1),
        |p: (int, int)| glyph_at(lines, region, marker, p.0, p.1),
    )
}

/// The symbols of [`no_wrap_glyphs`] that are drawn before the one for
/// column `col` of row `row` of the region is.
pub open spec fn no_wrap_glyphs_before(
    lines: Seq<Seq<char>>,
    region: Rect,
    marker: Option<char>,
    row: int,
    col: int,
) -> Map<(int, int), char> {
    Map::new(
        |p: (int, int)|
            shows(lines, region, p.0, p.1) && (p.1 - region.top < row || (p.1 - region.top == row
                && p.0 - region.left < col)),
        |p: (int, int)| glyph_at(lines, region, marker, p.0, p.1),
    )
}

/// The place of character `j` of a line that is wrapped in `region` and
/// starts in row `row` of it: the characters fill one row of the region
/// after the other. In a region without width, nothing is wrapped, and the
/// line stays in its row.
pub open spec fn wrap_place(region: Rect, row: int, j: int) -> (int, int) {
    if region.width > 0 {
        (region.left + j % (region.width as int), region.top + row + j / (region.width as int))
    } else {
        (region.left + j, region.top + row)
    }
}

/// The number of rows that a wrapped line of `n` characters takes up. A
/// line that just fills its rows takes an empty row more.
pub open spec fn wrap_rows(region: Rect, n: int) -> int {
    if region.width > 0 {
        n / (region.width as int) + 1
    } else {
        1
    }
}

/// `glyphs` with the first `n` characters of `line` on them, wrapped in
/// `region` from row `row` of it on.
pub open spec fn wrap_line_glyphs(
    glyphs: Map<(int, int), char>,
    line: Seq<char>,
    region: Rect,
    row: int,
    n: int,
) -> Map<(int, int), char>
    decreases n,
{
    if n <= 0 {
        glyphs
    } else {
        wrap_line_glyphs(glyphs, line, region, row, n - 1).insert(
            wrap_place(region, row, n - 1),
            line[n - 1],
        )
    }
}

/// `glyphs` with the lines of `lines` from line `k` on on them, wrapped in
/// `region` from row `row` of it on. Line `k` would have to be in a row of
/// the region if no line were wrapped, and the drawing stops after a line
/// that ends with the last row of the region.
pub open spec fn wrapped(
    glyphs: Map<(int, int), char>,
    lines: Seq<Seq<char>>,
    region: Rect,
    k: int,
    row: int,
) -> Map<(int, int), char>
    decreases lines.len() - k,
{
    if k < 0 || k >= lines.len() || k >= region.height {
        glyphs
    } else {
        let drawn = wrap_line_glyphs(glyphs, lines[k], region, row, lines[k].len() as int);
        let next = row + wrap_rows(region, lines[k].len() as int);
        if next == region.height {
            drawn
        } else {
            wrapped(drawn, lines, region, k + 1, next)
        }
    }
}

/// The symbols of a text whose lines are `lines`, drawn to `region` with
/// long lines wrapped.
pub open spec fn wrap_glyphs(lines: Seq<Seq<char>>, region: Rect) -> Map<(int, int), char> {
    wrapped(Map::empty(), lines, region, 0, 0)
}

/// The lines of `text` from line `first` on, without their line breaks.
pub open spec fn lines_from(text: Seq<char>, first: int) -> Seq<Seq<char>> {
    if 0 <= first <= line_count(text) {
        lines_of(text).skip(first)
    } else {
        Seq::empty()
    }
}

/// A piece of text that can be drawn to the terminal: the lines of a buffer,
/// from one of them on.
pub struct Text<'a> {
    /// The buffer that holds the text.
    buffer: &'a Buffer,
    /// The line of the buffer with which the text starts.
    first_line: usize,
    /// How lines that are longer than the region is wide are shown.
    wrap_mode: WrapMode,
}

impl<'a> Text<'a> {
    /// The lines of the text, without their line breaks.
    pub closed spec fn lines(self) -> Seq<Seq<char>> {
        lines_from(self.buffer@, self.first_line as int)
    }

    /// How lines that are longer than the region is wide are shown.
    pub closed spec fn mode(self) -> WrapMode {
        self.wrap_mode
    }

    /// The text of `buffer` from its line `first_line` on, which is not
    /// wrapped and has no marker for lines that are cut off.
    pub fn new(buffer: &'a Buffer, first_line: usize) -> (r: Text<'a>)
        ensures
            r.lines() == lines_from(buffer@, first_line as int),
            r.mode() == WrapMode::NoWrap(None),
    {
        Text { buffer, first_line, wrap_mode: WrapMode::NoWrap(None) }
    }

    /// The whole text of `buffer`, which is not wrapped and has no marker
    /// for lines that are cut off.
    pub fn from(buffer: &'a Buffer) -> (r: Text<'a>)
        ensures
            r.lines() == lines_of(buffer@),
            r.mode() == WrapMode::NoWrap(None),
    {
        assert(lines_of(buffer@).skip(0) == lines_of(buffer@));
        Text::new(buffer, 0)
    }

    /// Changes how the text wraps.
    pub fn wrap(&mut self, wrap_mode: WrapMode)
        ensures
            final(self).lines() == old(self).lines(),
            final(self).mode() == wrap_mode,
    {
        self.wrap_mode = wrap_mode;
    }

    /// Draws the text without wrapping it, and with `marker`, if there is
    /// one, at the end of each line that is cut off.
    fn render_cut(&self, frame: &mut Frame, region: Rect, marker: Option<char>)
        ensures
            *final(final(frame).buffer) == *final(old(frame).buffer),
            final(frame).grid().region() == old(frame).grid().region(),
            final(frame).grid().well_formed(),
            final(frame).grid().cells() == overlaid(
                old(frame).grid().cells(),
                old(frame).grid().region().width as int,
                no_wrap_glyphs(self.lines(), region, marker),
            ),
    {
        let area = frame.size();
        let ghost start = frame.grid().cells();
        let ghost w = area.width as int;
        let ghost h = area.height as int;
        let ghost lines = self.lines();
        let count = self.buffer.len_lines();
        let rows: usize = if self.first_line < count {
            count - self.first_line
        } else {
            0
        };
        proof {
            lemma_overlaid_nothing(start, w);
            assert(no_wrap_glyphs_before(lines, region, marker, 0, 0) =~= Map::empty());
        }
        let mut r: u16 = 0;
        while r < region.height && (r as usize) < rows
            invariant
                r <= region.height,
                r <= rows,
                rows == lines.len(),
                lines == self.lines(),
                count == line_count(self.buffer@),
                rows > 0 ==> self.first_line + rows == count,
                *final(frame.buffer) == *final(old(frame).buffer),
                frame.grid().region() == area,
                frame.grid().well_formed(),
                w == area.width,
                h == area.height,
                start.len() == w * h,
                frame.grid().cells() == overlaid(
                    start,
                    w,
                    no_wrap_glyphs_before(lines, region, marker, r as int, 0),
                ),
            decreases region.height - r,
        {
            let y = self.first_line + r as usize;
            let len = self.buffer.line_len(y);
            assert(lines[r as int] == line_text(self.buffer@, y as nat));
            assert(len == lines[r as int].len()) by {
                lemma_line_start(self.buffer@, y as nat);
                lemma_line_end(self.buffer@, line_start(self.buffer@, y as nat));
            }
            let mut c: u16 = 0;
            while c < region.width && (c as usize) < len
                invariant
                    c <= region.width,
                    c <= len,
                    r < region.height,
                    r < rows,
                    rows == lines.len(),
                    lines == self.lines(),
                    y == self.first_line + r,
                    y < line_count(self.buffer@),
                    len == line_len(self.buffer@, y as nat),
                    len == lines[r as int].len(),
                    lines[r as int] == line_text(self.buffer@, y as nat),
                    *final(frame.buffer) == *final(old(frame).buffer),
                    frame.grid().region() == area,
                    frame.grid().well_formed(),
                    w == area.width,
                    h == area.height,
                    start.len() == w * h,
                    frame.grid().cells() == overlaid(
                        start,
                        w,
                        no_wrap_glyphs_before(lines, region, marker, r as int, c as int),
                    ),
                decreases region.width - c,
            {
                let symbol = match marker {
                    Some(m) if len > region.width as usize && c == region.width - 1 => m,
                    _ => self.buffer.char_at(c as usize, y),
                };
                let x_at = region.left as u32 + c as u32;
                let y_at = region.top as u32 + r as u32;
                proof {
                    let before = no_wrap_glyphs_before(lines, region, marker, r as int, c as int);
                    let after = no_wrap_glyphs_before(
                        lines,
                        region,
                        marker,
                        r as int,
                        c as int + 1,
                    );
                    assert(symbol == glyph_at(lines, region, marker, x_at as int, y_at as int));
                    assert(after =~= before.insert((x_at as int, y_at as int), symbol));
                    lemma_overlaid_step(start, w, h, before, x_at as int, y_at as int, symbol);
                }
                if x_at <= u16::MAX as u32 && y_at <= u16::MAX as u32 {
                    frame.set_char(symbol, x_at as u16, y_at as u16);
                }
                c += 1;
            }
            proof {
                assert(no_wrap_glyphs_before(lines, region, marker, r as int, c as int)
                    =~= no_wrap_glyphs_before(lines, region, marker, r as int + 1, 0));
            }
            r += 1;
        }
        proof {
            assert(no_wrap_glyphs_before(lines, region, marker, r as int, 0) =~= no_wrap_glyphs(
                lines,
                region,
                marker,
            ));
        }
    }

    /// Draws the text with long lines wrapped.
    fn render_wrap(&self, frame: &mut Frame, region: Rect)
        ensures
            *final(final(frame).buffer) == *final(old(frame).buffer),
            final(frame).grid().region() == old(frame).grid().region(),
            final(frame).grid().well_formed(),
            final(frame).grid().cells() == overlaid(
                old(frame).grid().cells(),
                old(frame).grid().region().width as int,
                wrap_glyphs(self.lines(), region),
            ),
    {
        let area = frame.size();
        let ghost start = frame.grid().cells();
        let ghost w = area.width as int;
        let ghost h = area.height as int;
        let ghost lines = self.lines();
        let ghost mut glyphs: Map<(int, int), char> = Map::empty();
        let count = self.buffer.len_lines();
        let rows: usize = if self.first_line < count {
            count - self.first_line
        } else {
            0
        };
        proof {
            lemma_overlaid_nothing(start, w);
        }
        let mut done = false;
        let mut row: u128 = 0;
        let mut k: u16 = 0;
        while !done && k < region.height && (k as usize) < rows
            invariant
                k <= region.height,
                k <= rows,
                rows == lines.len(),
                lines == self.lines(),
                count == line_count(self.buffer@),
                rows > 0 ==> self.first_line + rows == count,
                row <= k * 0x1_0000_0000_0000_0001,
                *final(frame.buffer) == *final(old(frame).buffer),
                frame.grid().region() == area,
                frame.grid().well_formed(),
                w == area.width,
                h == area.height,
                start.len() == w * h,
                frame.grid().cells() == overlaid(start, w, glyphs),
                wrap_glyphs(lines, region) == if done {
                    glyphs
                } else {
                    wrapped(glyphs, lines, region, k as int, row as int)
                },
            decreases region.height - k,
        {
            let y = self.first_line + k as usize;
            let len = self.buffer.line_len(y);
            let ghost line = lines[k as int];
            assert(line == line_text(self.buffer@, y as nat));
            assert(len == line.len()) by {
                lemma_line_start(self.buffer@, y as nat);
                lemma_line_end(self.buffer@, line_start(self.buffer@, y as nat));
            }
            let mut j: usize = 0;
            while j < len
                invariant
                    j <= len,
                    y < line_count(self.buffer@),
                    len == line_len(self.buffer@, y as nat),
                    len == line.len(),
                    line == line_text(self.buffer@, y as nat),
                    row <= k * 0x1_0000_0000_0000_0001,
                    *final(frame.buffer) == *final(old(frame).buffer),
                    frame.grid().region() == area,
                    frame.grid().well_formed(),
                    w == area.width,
                    h == area.height,
                    start.len() == w * h,
                    frame.grid().cells() == overlaid(
                        start,
                        w,
                        wrap_line_glyphs(glyphs, line, region, row as int, j as int),
                    ),
                decreases len - j,
            {
                let symbol = self.buffer.char_at(j, y);
                let (col, down) = if region.width > 0 {
                    (j % region.width as usize, j / region.width as usize)
                } else {
                    (j, 0)
                };
                let x_at: u128 = region.left as u128 + col as u128;
                let y_at: u128 = region.top as u128 + row + down as u128;
                proof {
                    let before = wrap_line_glyphs(glyphs, line, region, row as int, j as int);
                    assert(wrap_place(region, row as int, j as int) == (x_at as int, y_at as int));
                    lemma_overlaid_step(start, w, h, before, x_at as int, y_at as int, symbol);
                }
                if x_at <= u16::MAX as u128 && y_at <= u16::MAX as u128 {
                    frame.set_char(symbol, x_at as u16, y_at as u16);
                }
                j += 1;
            }
            proof {
                glyphs = wrap_line_glyphs(glyphs, line, region, row as int, len as int);
            }
            let taken: u128 = if region.width > 0 {
                (len / region.width as usize) as u128 + 1
            } else {
                1
            };
            row = row + taken;
            k += 1;
            if row == region.height as u128 {
                done = true;
            }
        }
    }
}

impl Render for Text<'_> {
    /// A text can be drawn to every region.
    open spec fn fits(&self, region: Rect) -> bool {
        true
    }

    open spec fn glyphs(&self, region: Rect) -> Map<(int, int), char> {
        match self.mode() {
            WrapMode::Wrap => wrap_glyphs(self.lines(), region),
            WrapMode::NoWrap(marker) => no_wrap_glyphs(self.lines(), region, marker),
        }
    }

    fn render(&self, frame: &mut Frame, region: Rect) {
        match self.wrap_mode {
            WrapMode::Wrap => self.render_wrap(frame, region),
            WrapMode::NoWrap(marker) => self.render_cut(frame, region, marker),
        }
    }
}

/// The position of the first line feed of `s` at `from` or later, and the
/// length of `s` if there is none.
pub open spec fn first_feed(s: Seq<char>, from: int) -> int
    decreases s.len() - from,
{
    if from >= s.len() {
        s.len() as int
    } else if s[from] == '\u{000A}' {
        from
    } else {
        first_feed(s, from + 1)
    }
}

/// The character that a single line of text has for column `x`, where it is
/// drawn to `region`.
pub open spec fn single_glyph(chars: Seq<char>, region: Rect, x: int) -> char {
    chars[x - region.left]
}

/// A single line of text that can be drawn to the terminal.
pub struct SingleText<'a> {
    /// The line of text, which holds no line feed.
    text: &'a str,
}

impl<'a> SingleText<'a> {
    /// The characters of the line.
    pub closed spec fn chars(self) -> Seq<char> {
        self.text@
    }

    /// The text of `value` up to its first line feed.
    pub fn from(value: &'a String) -> (r: SingleText<'a>)
        ensures
            r.chars() == value@.take(first_feed(value@, 0)),
    {
        let text = value.as_str();
        let len = text.unicode_len();
        let mut index: usize = 0;
        while index < len && text.get_char(index) != '\u{000A}'
            invariant
                index <= len,
                len == text@.len(),
                first_feed(text@, 0) == first_feed(text@, index as int),
            decreases len - index,
        {
            index += 1;
        }
        SingleText { text: text.substring_char(0, index) }
    }
}

impl Render for SingleText<'_> {
    /// A single line can be drawn where each of its characters gets a
    /// column that a terminal can have.
    open spec fn fits(&self, region: Rect) -> bool {
        region.left + self.chars().len() <= u16::MAX + 1
    }

    /// The characters of the line, from the left of the top row of the
    /// region on.
    open spec fn glyphs(&self, region: Rect) -> Map<(int, int), char> {
        Map::new(
            |p: (int, int)| p.1 == region.top && region.left <= p.0 < region.left + self.chars().len(),
            |p: (int, int)| single_glyph(self.chars(), region, p.0),
        )
    }

    fn render(&self, frame: &mut Frame, region: Rect) {
        let area = frame.size();
        let ghost start = frame.grid().cells();
        let ghost w = area.width as int;
        let ghost h = area.height as int;
        let ghost chars = self.chars();
        let len = self.text.unicode_len();
        proof {
            lemma_overlaid_nothing(start, w);
            assert(single_glyphs_before(chars, region, 0) =~= Map::empty());
        }
        let mut x: usize = 0;
        while x < len
            invariant
                x <= len,
                len == chars.len(),
                chars == self.text@,
                region.left + len <= u16::MAX + 1,
                *final(frame.buffer) == *final(old(frame).buffer),
                frame.grid().region() == area,
                frame.grid().well_formed(),
                w == area.width,
                h == area.height,
                start.len() == w * h,
                frame.grid().cells() == overlaid(
                    start,
                    w,
                    single_glyphs_before(chars, region, x as int),
                ),
            decreases len - x,
        {
            let c = self.text.get_char(x);
            proof {
                let before = single_glyphs_before(chars, region, x as int);
                let after = single_glyphs_before(chars, region, x + 1);
                assert(after =~= before.insert((region.left + x, region.top as int), c));
                lemma_overlaid_step(start, w, h, before, region.left + x, region.top as int, c);
            }
            frame.set_char(c, x as u16 + region.left, region.top);
            x += 1;
        }
        proof {
            assert(single_glyphs_before(chars, region, len as int) =~= self.glyphs(region));
        }
    }
}

/// The symbols of the first `n` characters of a single line of text that is
/// drawn to `region`.
pub open spec fn single_glyphs_before(chars: Seq<char>, region: Rect, n: int) -> Map<
    (int, int),
    char,
> {
    Map::new(
        |p: (int, int)| p.1 == region.top && region.left <= p.0 < region.left + n,
        |p: (int, int)| single_glyph(chars, region, p.0),
    )
}

} // verus!
