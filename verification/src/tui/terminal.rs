//! The renderer: two buffers, one being drawn and one that shows what the
//! terminal displays, and the commands that bring the terminal from the one
//! to the other.

use vstd::prelude::*;
use crate::tui::buffer::{Buffer, Cell, blanks, resized};
use crate::tui::command::{Attribute, Command, only_if};
use crate::tui::frame::Frame;
use crate::tui::rect::Rect;
use crate::tui::style::{Style, StyleChange, addition_table, chosen, removal_table};

verus! {

/// Whether the place `(x, y)` is the one just right of `prev`: the place
/// where a terminal's cursor stands after it printed at `prev`.
pub open spec fn follows(prev: Option<(u16, u16)>, x: u16, y: u16) -> bool {
    prev matches Some(p) && x == p.0 + 1 && y == p.1
}

/// The place of the entry before entry `k` of `diff`, if there is one.
pub open spec fn place_before(diff: Seq<(Cell, u16, u16)>, k: int) -> Option<(u16, u16)> {
    if k <= 0 {
        None
    } else {
        Some((diff[k - 1].1, diff[k - 1].2))
    }
}

/// The style in which the terminal prints before entry `k` of `diff` is
/// sent: that of the entry before it, and the plain style at the start.
pub open spec fn style_before(diff: Seq<(Cell, u16, u16)>, k: int) -> Style {
    if k <= 0 {
        Style::plain()
    } else {
        diff[k - 1].0.style
    }
}

/// The commands for entry `k` of `diff`: a move of the cursor unless the
/// entry follows the one before it, the change of style from the entry before
/// it, and the entry's symbol.
pub open spec fn cell_commands(diff: Seq<(Cell, u16, u16)>, k: int) -> Seq<Command> {
    only_if(
        !follows(place_before(diff, k), diff[k].1, diff[k].2),
        Command::MoveTo(diff[k].1, diff[k].2),
    ) + diff[k].0.style.change_from(style_before(diff, k)).commands_of() + seq![
        Command::Print(diff[k].0.symbol),
    ]
}

/// The commands for the first `n` entries of `diff`.
pub open spec fn cells_commands(diff: Seq<(Cell, u16, u16)>, n: int) -> Seq<Command>
    decreases n,
{
    if n <= 0 {
        Seq::empty()
    } else {
        cells_commands(diff, n - 1) + cell_commands(diff, n - 1)
    }
}

/// The command that puts the cursor where it is asked to stay, if it is
/// asked to.
pub open spec fn final_move(final_position: Option<(u16, u16)>) -> Seq<Command> {
    match final_position {
        Some(p) => seq![Command::MoveTo(p.0, p.1)],
        None => Seq::empty(),
    }
}

/// The commands that bring a terminal up to date: those for each entry of
/// `diff`, then the final move of the cursor, then the return to the plain
/// style.
pub open spec fn flush_commands(
    diff: Seq<(Cell, u16, u16)>,
    final_position: Option<(u16, u16)>,
) -> Seq<Command> {
    cells_commands(diff, diff.len() as int) + final_move(final_position) + Style::plain().change_from(
        style_before(diff, diff.len() as int),
    ).commands_of()
}

/// The commands that bring a terminal up to date with the changed cells of
/// `diff`, and leave the cursor at `final_position` and the style plain.
///
/// The cursor is moved only to a cell that does not follow the cell before
/// it, and only what differs between the styles of two cells is sent.
pub fn commands_for(diff: &Vec<(Cell, u16, u16)>, final_position: Option<(u16, u16)>) -> (r: Vec<
    Command,
>)
    ensures
        r@ == flush_commands(diff@, final_position),
{
    let mut out: Vec<Command> = Vec::new();
    let mut prev_style = Style::default();
    let mut prev_position: Option<(u16, u16)> = None;
    let mut i: usize = 0;
    while i < diff.len()
        invariant
            i <= diff.len(),
            prev_style == style_before(diff@, i as int),
            prev_position == place_before(diff@, i as int),
            out@ == cells_commands(diff@, i as int),
        decreases diff.len() - i,
    {
        let (cell, x, y) = diff[i];
        let adjacent = match prev_position {
            Some((old_x, old_y)) => old_x < u16::MAX && x == old_x + 1 && y == old_y,
            None => false,
        };
        assert(adjacent == follows(prev_position, x, y));
        if !adjacent {
            out.push(Command::MoveTo(x, y));
        }
        prev_position = Some((x, y));
        let style_diff = cell.style.diff(prev_style);
        prev_style = cell.style;
        style_diff.write_commands(&mut out);
        out.push(Command::Print(cell.symbol));
        assert(out@ == cells_commands(diff@, i as int) + cell_commands(diff@, i as int));
        i += 1;
    }
    if let Some((x, y)) = final_position {
        out.push(Command::MoveTo(x, y));
    }
    assert(out@ == cells_commands(diff@, diff@.len() as int) + final_move(final_position));
    Style::default().diff(prev_style).write_commands(&mut out);
    out
}

/// The characters that `commands` print, in order.
pub open spec fn printed(commands: Seq<Command>) -> Seq<char>
    decreases commands.len(),
{
    if commands.len() == 0 {
        Seq::empty()
    } else {
        printed(commands.drop_last()) + (match commands.last() {
            Command::Print(c) => seq![c],
            _ => Seq::empty(),
        })
    }
}

/// What two sequences of commands print, one after the other, is what they
/// print together.
pub proof fn lemma_printed_concat(a: Seq<Command>, b: Seq<Command>)
    ensures
        printed(a + b) == printed(a) + printed(b),
    decreases b.len(),
{
    if b.len() == 0 {
        assert(a + b == a);
    } else {
        lemma_printed_concat(a, b.drop_last());
        assert((a + b).drop_last() == a + b.drop_last());
        assert((a + b).last() == b.last());
    }
}

/// The commands that set attributes print nothing.
pub proof fn lemma_chosen_prints_nothing(table: Seq<(u16, Attribute)>, bits: u16, n: int)
    ensures
        printed(chosen(table, bits, n)) == Seq::<char>::empty(),
    decreases n,
{
    if n > 0 {
        lemma_chosen_prints_nothing(table, bits, n - 1);
        let one = only_if(bits & table[n - 1].0 != 0, Command::SetAttribute(table[n - 1].1));
        lemma_printed_concat(chosen(table, bits, n - 1), one);
        lemma_printed_one(one);
    }
}

/// What a sequence of at most one command prints.
pub proof fn lemma_printed_one(one: Seq<Command>)
    requires
        one.len() <= 1,
    ensures
        printed(one) == if one.len() == 1 && one[0] is Print {
            seq![one[0]->Print_0]
        } else {
            Seq::<char>::empty()
        },
{
    if one.len() == 1 {
        assert(one.drop_last().len() == 0);
        assert(printed(one.drop_last()) == Seq::<char>::empty());
    }
}

/// A change of style prints nothing.
pub proof fn lemma_change_prints_nothing(change: StyleChange)
    ensures
        printed(change.commands_of()) == Seq::<char>::empty(),
{
    let fg: Seq<Command> = match change.fg {
        Some(c) => seq![Command::SetForegroundColor(c)],
        None => Seq::empty(),
    };
    let bg: Seq<Command> = match change.bg {
        Some(c) => seq![Command::SetBackgroundColor(c)],
        None => Seq::empty(),
    };
    lemma_printed_one(fg);
    lemma_printed_one(bg);
    lemma_printed_concat(fg, bg);
    let off = chosen(removal_table(), change.sub_modifier.bits, 8);
    let on = chosen(addition_table(), change.add_modifier.bits, 9);
    lemma_chosen_prints_nothing(removal_table(), change.sub_modifier.bits, 8);
    lemma_chosen_prints_nothing(addition_table(), change.add_modifier.bits, 9);
    lemma_printed_concat(change.colors(), off);
    lemma_printed_concat(change.colors() + off, on);
}

/// The commands for the first `n` entries of a difference print the symbols
/// of these entries, one for each, in order.
pub proof fn lemma_cells_printed(diff: Seq<(Cell, u16, u16)>, n: int)
    requires
        0 <= n <= diff.len(),
    ensures
        printed(cells_commands(diff, n)) == Seq::new(n as nat, |k: int| diff[k].0.symbol),
    decreases n,
{
    if n > 0 {
        lemma_cells_printed(diff, n - 1);
        let k = n - 1;
        let go = only_if(
            !follows(place_before(diff, k), diff[k].1, diff[k].2),
            Command::MoveTo(diff[k].1, diff[k].2),
        );
        let change = diff[k].0.style.change_from(style_before(diff, k)).commands_of();
        let print = seq![Command::Print(diff[k].0.symbol)];
        lemma_printed_one(go);
        lemma_printed_one(print);
        lemma_change_prints_nothing(diff[k].0.style.change_from(style_before(diff, k)));
        lemma_printed_concat(go, change);
        lemma_printed_concat(go + change, print);
        lemma_printed_concat(cells_commands(diff, k), cell_commands(diff, k));
        assert(printed(cell_commands(diff, k)) == seq![diff[k].0.symbol]);
        assert(printed(cells_commands(diff, n)) =~= Seq::new(
            n as nat,
            |k: int| diff[k].0.symbol,
        ));
    }
}

/// The commands of a flush print the symbol of each entry of the difference,
/// once and in order, and nothing else.
pub proof fn lemma_flush_printed(diff: Seq<(Cell, u16, u16)>, final_position: Option<(u16, u16)>)
    ensures
        printed(flush_commands(diff, final_position)) == Seq::new(
            diff.len(),
            |k: int| diff[k].0.symbol,
        ),
{
    let n = diff.len() as int;
    lemma_cells_printed(diff, n);
    lemma_printed_one(final_move(final_position));
    let reset = Style::plain().change_from(style_before(diff, n));
    lemma_change_prints_nothing(reset);
    lemma_printed_concat(cells_commands(diff, n), final_move(final_position));
    lemma_printed_concat(cells_commands(diff, n) + final_move(final_position), reset.commands_of());
}

/// A terminal that is drawn to through one buffer while another keeps what
/// the terminal shows.
#[derive(Debug)]
pub struct Terminal {
    /// The buffer that is drawn to and the one that is displayed.
    buffers: [Buffer; 2],
    /// Which of the two buffers is drawn to; the other one is displayed.
    current_buf: usize,
}

impl Terminal {
    /// The index of the buffer that is drawn to is that of one of the two
    /// buffers, which every terminal made by [`Terminal::new`] keeps up.
    pub closed spec fn well_formed(self) -> bool {
        self.current_buf < 2
    }

    /// The buffer that is being drawn to.
    pub closed spec fn current(self) -> Buffer {
        self.buffers@[self.current_buf as int]
    }

    /// The buffer that holds what the terminal shows.
    pub closed spec fn display(self) -> Buffer {
        self.buffers@[1 - self.current_buf]
    }

    /// A terminal of the size `area`, on which nothing was drawn yet.
    pub fn new(area: Rect) -> (r: Terminal)
        ensures
            r.well_formed(),
            r.current().region() == area,
            r.display().region() == area,
            r.current().cells() == blanks(area.area()),
            r.display().cells() == blanks(area.area()),
    {
        Terminal { buffers: [Buffer::new(area), Buffer::new(area)], current_buf: 0 }
    }

    /// The buffer that is being drawn to.
    pub fn current_buf(&self) -> (r: &Buffer)
        requires
            self.well_formed(),
        ensures
            *r == self.current(),
    {
        &self.buffers[self.current_buf]
    }

    /// The buffer that holds what the terminal shows.
    pub fn display_buf(&self) -> (r: &Buffer)
        requires
            self.well_formed(),
        ensures
            *r == self.display(),
    {
        &self.buffers[1 - self.current_buf]
    }

    /// Gives the buffer that is drawn to the size `area`. The displayed
    /// buffer keeps its size, so that after a change of size the next
    /// [`Terminal::flush`] paints every cell.
    pub fn resize(&mut self, area: Rect)
        requires
            old(self).well_formed(),
        ensures
            final(self).well_formed(),
            final(self).display() == old(self).display(),
            final(self).current().region() == area,
            final(self).current().cells() == resized(
                old(self).current().cells(),
                area.area(),
            ),
    {
        self.buffers[self.current_buf].resize(area);
    }

    /// Puts `c` into the cell at offset `i` of the buffer that is drawn to,
    /// in the plain style.
    pub fn set(&mut self, c: char, i: usize)
        requires
            old(self).well_formed(),
            i < old(self).current().cells().len(),
        ensures
            final(self).well_formed(),
            final(self).display() == old(self).display(),
            final(self).current().region() == old(self).current().region(),
            final(self).current().cells() == old(self).current().cells().update(
                i as int,
                Cell { symbol: c, style: Style::plain() },
            ),
    {
        self.buffers[self.current_buf].set(c, i);
    }

    /// The command that moves the cursor to the cell at offset `i` of the
    /// buffer that is drawn to.
    pub fn set_cursor(&self, i: usize) -> (r: Command)
        requires
            self.well_formed(),
            i < self.current().cells().len(),
        ensures
            r == Command::MoveTo(
                (i as int % self.current().region().width as int) as u16,
                (i as int / self.current().region().width as int) as u16,
            ),
            self.current().region().width > 0,
    {
        let area = self.buffers[self.current_buf].area();
        proof {
            self.current().lemma_len();
        }
        Command::MoveTo((i % area.width as usize) as u16, (i / area.width as usize) as u16)
    }

    /// Makes the buffer that is drawn to blank and hands out a [`Frame`]
    /// over it.
    pub fn frame(&mut self) -> (r: Frame<'_>)
        requires
            old(self).well_formed(),
        ensures
            r.grid().region() == old(self).current().region(),
            r.grid().cells() == blanks(old(self).current().cells().len()),
            r.grid().well_formed(),
            final(self).well_formed(),
            final(self).display() == old(self).display(),
            final(self).current() == *final(r.buffer),
    {
        self.buffers[self.current_buf].clear();
        Frame { buffer: &mut self.buffers[self.current_buf] }
    }

    /// Draws one image: makes the buffer that is drawn to blank, lets
    /// `paint` draw to a [`Frame`] over it, and gives the commands that make
    /// the terminal show the result, with the cursor at the place that
    /// `paint` returned.
    ///
    /// `paint` has to accept a frame over the blank buffer, and has to leave
    /// the frame on that buffer.
    pub fn draw<F>(&mut self, paint: F) -> (r: Vec<Command>) where
        F: FnOnce(&mut Frame) -> Option<(u16, u16)>,

        requires
            old(self).well_formed(),
            forall|f: &mut Frame|
                {
                    &&& f.grid().well_formed()
                    &&& f.grid().region() == old(self).current().region()
                    &&& f.grid().cells() == blanks(old(self).current().cells().len())
                } ==> call_requires(paint, (f,)),
            forall|f: &mut Frame, p: Option<(u16, u16)>|
                call_ensures(paint, (f,), p) ==> *final(final(f).buffer) == *final(f.buffer),
        ensures
            final(self).well_formed(),
            final(self).display() == old(self).display(),
            exists|f: &mut Frame, p: Option<(u16, u16)>|
                {
                    &&& f.grid().region() == old(self).current().region()
                    &&& f.grid().cells() == blanks(old(self).current().cells().len())
                    &&& #[trigger] call_ensures(paint, (f,), p)
                    &&& final(self).current() == *final(f.buffer)
                    &&& r@ == flush_commands(
                        final(self).current().diff_of(final(self).display()),
                        p,
                    )
                },
    {
        let final_position = {
            let mut frame = self.frame();
            paint(&mut frame)
        };
        self.flush(final_position)
    }

    /// Where the buffer that was drawn to has another region than the
    /// displayed one, as after a change of the terminal's size, a flush
    /// prints every cell of the buffer that was drawn to.
    pub proof fn lemma_resized_repaints(t: Terminal, final_position: Option<(u16, u16)>)
        requires
            t.current().region() != t.display().region(),
        ensures
            printed(flush_commands(t.current().diff_of(t.display()), final_position)) == Seq::new(
                t.current().cells().len(),
                |k: int| t.current().cells()[k].symbol,
            ),
    {
        lemma_flush_printed(t.current().diff_of(t.display()), final_position);
        assert(printed(flush_commands(t.current().diff_of(t.display()), final_position))
            =~= Seq::new(t.current().cells().len(), |k: int| t.current().cells()[k].symbol));
    }

    /// The commands that make the terminal show the buffer that was drawn
    /// to, given that it shows the displayed buffer.
    pub fn flush(&self, final_position: Option<(u16, u16)>) -> (r: Vec<Command>)
        requires
            self.well_formed(),
        ensures
            r@ == flush_commands(self.current().diff_of(self.display()), final_position),
    {
        let diff = self.current_buf().diff(self.display_buf());
        commands_for(&diff, final_position)
    }

    /// Takes note that the terminal now shows the buffer that was drawn to:
    /// that buffer becomes the displayed one, and the other becomes a copy
    /// of it, to be drawn to next.
    pub fn swap_buffers(&mut self)
        requires
            old(self).well_formed(),
        ensures
            final(self).well_formed(),
            final(self).display() == old(self).current(),
            final(self).current().cells() == old(self).current().cells(),
            final(self).current().region() == old(self).current().region(),
    {
        self.current_buf = 1 - self.current_buf;
        let copy = self.buffers[1 - self.current_buf].clone();
        self.buffers[self.current_buf] = copy;
    }
}

} // verus!
