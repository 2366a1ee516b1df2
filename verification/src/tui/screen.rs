//! What the commands of the renderer do to a terminal, and that the commands
//! of a flush make the terminal show what was drawn.

use vstd::prelude::*;
use crate::tui::buffer::{
    Buffer, Cell, lemma_changed_exact, lemma_grid_offsets, lemma_grid_place, offset_of, placed,
};
use crate::tui::command::{Attribute, Command, only_if};
use crate::tui::style::{
    ALL, BOLD, CROSSED_OUT, DIM, HIDDEN, ITALIC, Modifier, RAPID_BLINK, REVERSED, SLOW_BLINK, Style,
    UNDERLINED, addition_table, chosen, removal_table,
};
use crate::tui::terminal::{
    cell_commands, cells_commands, final_move, flush_commands, follows, place_before, style_before,
};

verus! {

/// The bits of the modifiers that an attribute switches on.
pub open spec fn sets(attribute: Attribute) -> u16 {
    match attribute {
        Attribute::Bold => BOLD,
        Attribute::Dim => DIM,
        Attribute::Italic => ITALIC,
        Attribute::Underlined => UNDERLINED,
        Attribute::SlowBlink => SLOW_BLINK,
        Attribute::RapidBlink => RAPID_BLINK,
        Attribute::Reverse => REVERSED,
        Attribute::Hidden => HIDDEN,
        Attribute::CrossedOut => CROSSED_OUT,
        _ => 0,
    }
}

/// The bits of the modifiers that an attribute switches off. Normal
/// intensity ends both bold and dim, and one attribute ends both kinds of
/// blinking.
pub open spec fn clears(attribute: Attribute) -> u16 {
    match attribute {
        Attribute::NormalIntensity => 0x003,
        Attribute::NoItalic => ITALIC,
        Attribute::NoUnderline => UNDERLINED,
        Attribute::NoBlink => 0x030,
        Attribute::NoReverse => REVERSED,
        Attribute::NoHidden => HIDDEN,
        Attribute::NotCrossedOut => CROSSED_OUT,
        _ => 0,
    }
}

/// The bits of the modifiers of a terminal that had those of `bits` and was
/// sent `attribute`.
pub open spec fn switched(bits: u16, attribute: Attribute) -> u16 {
    (bits & !clears(attribute)) | sets(attribute)
}

/// A terminal, as far as the renderer deals with it: the cells that it
/// shows, row by row, the place where it prints next, and the style in which
/// it prints.
pub struct Screen {
    /// What the terminal shows, in row-major order.
    pub cells: Seq<Cell>,
    /// The number of columns.
    pub width: int,
    /// The number of rows.
    pub height: int,
    /// The column of the cursor.
    pub column: int,
    /// The row of the cursor.
    pub row: int,
    /// The style in which the terminal prints.
    pub style: Style,
}

impl Screen {
    /// The terminal after it obeyed one command. A printed character goes to
    /// the cell of the cursor, if the cursor is on a cell, in the style of
    /// the terminal, and the cursor goes one column on.
    pub open spec fn obey(self, command: Command) -> Screen {
        match command {
            Command::MoveTo(x, y) => Screen { column: x as int, row: y as int, ..self },
            Command::SetForegroundColor(c) => Screen { style: Style { fg: c, ..self.style }, ..self },
            Command::SetBackgroundColor(c) => Screen { style: Style { bg: c, ..self.style }, ..self },
            Command::SetAttribute(a) => Screen {
                style: Style {
                    modifiers: Modifier { bits: switched(self.style.modifiers.bits, a) },
                    ..self.style
                },
                ..self
            },
            Command::Print(c) => Screen {
                cells: if 0 <= self.column < self.width && 0 <= self.row < self.height {
                    self.cells.update(
                        self.row * self.width + self.column,
                        Cell { symbol: c, style: self.style },
                    )
                } else {
                    self.cells
                },
                column: self.column + 1,
                ..self
            },
        }
    }

    /// The terminal after it obeyed a sequence of commands, one after the
    /// other.
    pub open spec fn run(self, commands: Seq<Command>) -> Screen
        decreases commands.len(),
    {
        if commands.len() == 0 {
            self
        } else {
            self.run(commands.drop_last()).obey(commands.last())
        }
    }

    /// To obey two sequences of commands, one after the other, is to obey
    /// the two as one.
    pub proof fn lemma_run_concat(self, a: Seq<Command>, b: Seq<Command>)
        ensures
            self.run(a + b) == self.run(a).run(b),
        decreases b.len(),
    {
        if b.len() == 0 {
            assert(a + b == a);
        } else {
            self.lemma_run_concat(a, b.drop_last());
            assert((a + b).drop_last() == a + b.drop_last());
            assert((a + b).last() == b.last());
        }
    }

    /// What it is to obey at most one command.
    pub proof fn lemma_run_one(self, one: Seq<Command>)
        requires
            one.len() <= 1,
        ensures
            self.run(one) == if one.len() == 1 {
                self.obey(one[0])
            } else {
                self
            },
    {
        if one.len() == 1 {
            assert(one.drop_last().len() == 0);
            assert(self.run(one.drop_last()) == self);
            assert(one.last() == one[0]);
            assert(self.run(one) == self.run(one.drop_last()).obey(one.last()));
        }
    }
}

/// The bits of the modifiers of a terminal that had those of `bits` and was
/// sent the attributes that the first `n` entries of `table` hold for
/// `chosen_by`.
pub open spec fn switched_by(bits: u16, table: Seq<(u16, Attribute)>, chosen_by: u16, n: int) -> u16
    decreases n,
{
    if n <= 0 {
        bits
    } else if chosen_by & table[n - 1].0 != 0 {
        switched(switched_by(bits, table, chosen_by, n - 1), table[n - 1].1)
    } else {
        switched_by(bits, table, chosen_by, n - 1)
    }
}

/// The attributes that a table holds for some bits change the modifiers of
/// a terminal, and nothing else.
pub proof fn lemma_run_chosen(screen: Screen, table: Seq<(u16, Attribute)>, bits: u16, n: int)
    ensures
        screen.run(chosen(table, bits, n)) == (Screen {
            style: Style {
                modifiers: Modifier {
                    bits: switched_by(screen.style.modifiers.bits, table, bits, n),
                },
                ..screen.style
            },
            ..screen
        }),
    decreases n,
{
    if n > 0 {
        lemma_run_chosen(screen, table, bits, n - 1);
        let one = only_if(bits & table[n - 1].0 != 0, Command::SetAttribute(table[n - 1].1));
        screen.lemma_run_concat(chosen(table, bits, n - 1), one);
        screen.run(chosen(table, bits, n - 1)).lemma_run_one(one);
    }
}

/// Whether a style is one that a terminal can be in: it holds no bits but
/// those of modifiers, not both bold and dim, which end together, and not
/// both kinds of blinking, which end together too.
pub open spec fn settled(style: Style) -> bool {
    let bits = style.modifiers.bits;
    &&& bits & !ALL == 0
    &&& !(bits & BOLD != 0 && bits & DIM != 0)
    &&& !(bits & SLOW_BLINK != 0 && bits & RAPID_BLINK != 0)
}

/// The plain style is settled.
pub proof fn lemma_plain_settled()
    ensures
        settled(Style::plain()),
{
    assert(0u16 & !0x1ffu16 == 0 && 0u16 & 0x001u16 == 0 && 0u16 & 0x010u16 == 0) by (bit_vector);
}

/// The bits `m` without those of `clear`, if `by` meets `mask`.
pub open spec fn off(m: u16, by: u16, mask: u16, clear: u16) -> u16 {
    if by & mask != 0 {
        (m & !clear) | 0
    } else {
        m
    }
}

/// The bits `m` with those of `mask`, if `by` meets `mask`.
pub open spec fn on(m: u16, by: u16, mask: u16) -> u16 {
    if by & mask != 0 {
        (m & !0) | mask
    } else {
        m
    }
}

/// The bits of a terminal that had the modifiers `m` and was sent what
/// switches the modifiers `by` off.
pub open spec fn switched_off(m: u16, by: u16) -> u16 {
    let m = off(m, by, 0x040, 0x040);
    let m = off(m, by, 0x001, 0x003);
    let m = off(m, by, 0x004, 0x004);
    let m = off(m, by, 0x008, 0x008);
    let m = off(m, by, 0x002, 0x003);
    let m = off(m, by, 0x100, 0x100);
    let m = off(m, by, 0x030, 0x030);
    off(m, by, 0x080, 0x080)
}

/// The bits of a terminal that had the modifiers `m` and was sent what
/// switches the modifiers `by` on.
pub open spec fn switched_on(m: u16, by: u16) -> u16 {
    let m = on(m, by, 0x040);
    let m = on(m, by, 0x001);
    let m = on(m, by, 0x004);
    let m = on(m, by, 0x008);
    let m = on(m, by, 0x002);
    let m = on(m, by, 0x100);
    let m = on(m, by, 0x010);
    let m = on(m, by, 0x020);
    on(m, by, 0x080)
}

/// The two tables switch off and on what their entries say.
pub proof fn lemma_tables(m: u16, by: u16)
    ensures
        switched_by(m, removal_table(), by, 8) == switched_off(m, by),
        switched_by(m, addition_table(), by, 9) == switched_on(m, by),
{
    reveal_with_fuel(switched_by, 10);
}

/// Between two settled sets of modifiers, switching off those that only the
/// first has and then switching on those that only the second has leads
/// from the first to the second.
pub proof fn lemma_off_and_on(a: u16, b: u16)
    requires
        a & !ALL == 0,
        !(a & BOLD != 0 && a & DIM != 0),
        !(a & SLOW_BLINK != 0 && a & RAPID_BLINK != 0),
        b & !ALL == 0,
        !(b & BOLD != 0 && b & DIM != 0),
        !(b & SLOW_BLINK != 0 && b & RAPID_BLINK != 0),
    ensures
        switched_on(switched_off(a, a & !b), b & !a) == b,
{
    let both = a & b;
    assert(switched_off(a, a & !b) == both) by (bit_vector)
        requires
            both == a & b,
            a & !0x1ffu16 == 0,
            !(a & 0x001u16 != 0 && a & 0x002u16 != 0),
            !(a & 0x010u16 != 0 && a & 0x020u16 != 0),
    ;
    assert(switched_on(both, b & !a) == b) by (bit_vector)
        requires
            both == a & b,
            b & !0x1ffu16 == 0,
    ;
}

/// The commands of the change from the style of a terminal to another style
/// put the terminal in that style, and do nothing else to it, if both styles
/// are settled.
pub proof fn lemma_run_change(screen: Screen, target: Style)
    requires
        settled(screen.style),
        settled(target),
    ensures
        screen.run(target.change_from(screen.style).commands_of()) == (Screen {
            style: target,
            ..screen
        }),
{
    let change = target.change_from(screen.style);
    let fg: Seq<Command> = match change.fg {
        Some(c) => seq![Command::SetForegroundColor(c)],
        None => Seq::empty(),
    };
    let bg: Seq<Command> = match change.bg {
        Some(c) => seq![Command::SetBackgroundColor(c)],
        None => Seq::empty(),
    };
    let removals = chosen(removal_table(), change.sub_modifier.bits, 8);
    let additions = chosen(addition_table(), change.add_modifier.bits, 9);
    screen.lemma_run_one(fg);
    let s1 = screen.run(fg);
    s1.lemma_run_one(bg);
    let s2 = s1.run(bg);
    screen.lemma_run_concat(fg, bg);
    assert(s2 == Screen { style: Style { fg: target.fg, bg: target.bg, ..screen.style }, ..screen });
    lemma_run_chosen(s2, removal_table(), change.sub_modifier.bits, 8);
    let s3 = s2.run(removals);
    lemma_run_chosen(s3, addition_table(), change.add_modifier.bits, 9);
    let s4 = s3.run(additions);
    screen.lemma_run_concat(change.colors(), removals);
    screen.lemma_run_concat(change.colors() + removals, additions);
    let a = screen.style.modifiers.bits;
    let b = target.modifiers.bits;
    lemma_tables(a, a & !b);
    lemma_tables(switched_off(a, a & !b), b & !a);
    lemma_off_and_on(a, b);
    assert(s4.style.modifiers.bits == b);
    assert(s4.style.modifiers == target.modifiers);
    assert(s4.style == target);
}

/// Whether an entry of a difference is a cell of `cells` with its own place
/// in a grid of `w` columns and `h` rows.
pub open spec fn faithful(cells: Seq<Cell>, w: int, h: int, entry: (Cell, u16, u16)) -> bool {
    &&& entry.1 < w
    &&& entry.2 < h
    &&& entry.0 == cells[offset_of(w, entry.1 as int, entry.2 as int)]
}

/// The commands for one entry of a difference put the entry's cell at the
/// entry's place, and leave the terminal in the entry's style with the
/// cursor right of that place; given that the terminal is in the style of
/// the entry before, with the cursor right of that entry's place.
pub proof fn lemma_run_cell(screen: Screen, diff: Seq<(Cell, u16, u16)>, k: int)
    requires
        0 <= k < diff.len(),
        settled(screen.style),
        settled(diff[k].0.style),
        screen.style == style_before(diff, k),
        k > 0 ==> screen.column == diff[k - 1].1 + 1 && screen.row == diff[k - 1].2,
        diff[k].1 < screen.width,
        diff[k].2 < screen.height,
    ensures
        screen.run(cell_commands(diff, k)) == (Screen {
            cells: screen.cells.update(
                offset_of(screen.width, diff[k].1 as int, diff[k].2 as int),
                diff[k].0,
            ),
            column: diff[k].1 + 1,
            row: diff[k].2 as int,
            style: diff[k].0.style,
            ..screen
        }),
{
    let (cell, x, y) = diff[k];
    let go = only_if(!follows(place_before(diff, k), x, y), Command::MoveTo(x, y));
    let change = cell.style.change_from(style_before(diff, k)).commands_of();
    let print = seq![Command::Print(cell.symbol)];
    screen.lemma_run_one(go);
    let s1 = screen.run(go);
    assert(s1 == Screen { column: x as int, row: y as int, ..screen });
    lemma_run_change(s1, cell.style);
    let s2 = s1.run(change);
    s2.lemma_run_one(print);
    screen.lemma_run_concat(go, change);
    screen.lemma_run_concat(go + change, print);
}

/// The commands for the first `j` entries of a difference put the cells of
/// these entries at their places and leave the other cells as they are, if
/// the terminal starts in the plain style and each entry is a cell of
/// `cells` with its own place.
pub proof fn lemma_run_cells(screen: Screen, cells: Seq<Cell>, diff: Seq<(Cell, u16, u16)>, j: int)
    requires
        0 <= j <= diff.len(),
        0 <= screen.width,
        0 <= screen.height,
        screen.cells.len() == screen.width * screen.height,
        cells.len() == screen.cells.len(),
        screen.style == Style::plain(),
        forall|k: int|
            0 <= k < diff.len() ==> faithful(cells, screen.width, screen.height, #[trigger] diff[k])
                && settled(diff[k].0.style),
    ensures
        ({
            let after = screen.run(cells_commands(diff, j));
            &&& after.width == screen.width
            &&& after.height == screen.height
            &&& after.cells.len() == cells.len()
            &&& after.style == style_before(diff, j)
            &&& settled(after.style)
            &&& j > 0 ==> after.column == diff[j - 1].1 + 1 && after.row == diff[j - 1].2
            &&& j == 0 ==> after == screen
            &&& forall|i: int|
                0 <= i < cells.len() ==> #[trigger] after.cells[i] == cells[i] || after.cells[i]
                    == screen.cells[i]
            &&& forall|k: int|
                0 <= k < j ==> after.cells[offset_of(
                    screen.width,
                    (#[trigger] diff[k]).1 as int,
                    diff[k].2 as int,
                )] == diff[k].0
        }),
    decreases j,
{
    lemma_plain_settled();
    if j > 0 {
        let k = j - 1;
        lemma_run_cells(screen, cells, diff, k);
        let before = screen.run(cells_commands(diff, k));
        assert(faithful(cells, screen.width, screen.height, diff[k]));
        lemma_grid_place(screen.width, screen.height, diff[k].1 as int, diff[k].2 as int);
        lemma_run_cell(before, diff, k);
        screen.lemma_run_concat(cells_commands(diff, k), cell_commands(diff, k));
        let after = screen.run(cells_commands(diff, j));
        let at = offset_of(screen.width, diff[k].1 as int, diff[k].2 as int);
        assert(after.cells == before.cells.update(at, diff[k].0));
        assert forall|m: int| 0 <= m < j implies after.cells[offset_of(
            screen.width,
            (#[trigger] diff[m]).1 as int,
            diff[m].2 as int,
        )] == diff[m].0 by {
            let there = offset_of(screen.width, diff[m].1 as int, diff[m].2 as int);
            assert(faithful(cells, screen.width, screen.height, diff[m]));
            lemma_grid_place(screen.width, screen.height, diff[m].1 as int, diff[m].2 as int);
            if there == at {
                assert(diff[m].0 == cells[there]);
                assert(diff[k].0 == cells[at]);
            }
        }
    }
}

/// Each entry of the difference between two buffers is a cell of the first
/// with its own place.
pub proof fn lemma_diff_faithful(drawn: Buffer, displayed: Buffer)
    requires
        drawn.well_formed(),
        displayed.well_formed(),
    ensures
        forall|k: int|
            0 <= k < drawn.diff_of(displayed).len() ==> faithful(
                drawn.cells(),
                drawn.region().width as int,
                drawn.region().height as int,
                #[trigger] drawn.diff_of(displayed)[k],
            ),
{
    let a = drawn.cells();
    let w = drawn.region().width as int;
    let h = drawn.region().height as int;
    let diff = drawn.diff_of(displayed);
    if drawn.region() == displayed.region() {
        lemma_changed_exact(a, displayed.cells(), w, a.len() as int);
    }
    assert forall|k: int| 0 <= k < diff.len() implies faithful(a, w, h, #[trigger] diff[k]) by {
        let i = if drawn.region() == displayed.region() {
            assert(diff.contains(diff[k]));
            choose|i: int|
                0 <= i < a.len() && a[i] != displayed.cells()[i] && diff[k] == placed(a, w, i)
        } else {
            k
        };
        assert(diff[k] == placed(a, w, i));
        lemma_grid_offsets(w, h, i);
    }
}

/// The commands of a flush make the terminal show what was drawn.
///
/// The terminal has the size of the buffer that was drawn to and is in the
/// plain style; it shows the displayed buffer, if that has the region of the
/// drawn one, and anything else. After the commands of the flush it shows
/// the cells of the drawn buffer, it is in the plain style again, and its
/// cursor is where it was asked to be. This holds where the styles that
/// were drawn are settled.
pub proof fn lemma_flush_shows(
    screen: Screen,
    drawn: Buffer,
    displayed: Buffer,
    final_position: Option<(u16, u16)>,
)
    requires
        drawn.well_formed(),
        displayed.well_formed(),
        screen.width == drawn.region().width,
        screen.height == drawn.region().height,
        screen.cells.len() == drawn.cells().len(),
        drawn.region() == displayed.region() ==> screen.cells == displayed.cells(),
        screen.style == Style::plain(),
        forall|i: int| 0 <= i < drawn.cells().len() ==> settled(#[trigger] drawn.cells()[i].style),
    ensures
        ({
            let after = screen.run(flush_commands(drawn.diff_of(displayed), final_position));
            &&& after.width == screen.width
            &&& after.height == screen.height
            &&& after.cells == drawn.cells()
            &&& after.style == Style::plain()
            &&& final_position matches Some(p) ==> after.column == p.0 && after.row == p.1
        }),
{
    let a = drawn.cells();
    let w = drawn.region().width as int;
    let h = drawn.region().height as int;
    let diff = drawn.diff_of(displayed);
    let n = diff.len() as int;
    lemma_diff_faithful(drawn, displayed);
    assert forall|k: int| 0 <= k < diff.len() implies faithful(a, w, h, #[trigger] diff[k])
        && settled(diff[k].0.style) by {
        lemma_grid_place(w, h, diff[k].1 as int, diff[k].2 as int);
    }
    lemma_run_cells(screen, a, diff, n);
    let painted = screen.run(cells_commands(diff, n));
    let go = final_move(final_position);
    painted.lemma_run_one(go);
    let moved = painted.run(go);
    lemma_plain_settled();
    lemma_run_change(moved, Style::plain());
    let reset = Style::plain().change_from(style_before(diff, n)).commands_of();
    screen.lemma_run_concat(cells_commands(diff, n), go);
    screen.lemma_run_concat(cells_commands(diff, n) + go, reset);
    let after = screen.run(flush_commands(diff, final_position));
    assert(after.cells == painted.cells);
    if drawn.region() == displayed.region() {
        lemma_changed_exact(a, displayed.cells(), w, a.len() as int);
    }
    assert forall|i: int| 0 <= i < a.len() implies painted.cells[i] == a[i] by {
        lemma_grid_offsets(w, h, i);
        let e = placed(a, w, i);
        if drawn.region() != displayed.region() || a[i] != displayed.cells()[i] {
            let k = if drawn.region() == displayed.region() {
                assert(diff.contains(e));
                choose|k: int| 0 <= k < diff.len() && diff[k] == e
            } else {
                i
            };
            assert(diff[k] == e);
            assert(offset_of(w, diff[k].1 as int, diff[k].2 as int) == i);
        }
    }
    assert(painted.cells =~= a);
}

} // verus!
