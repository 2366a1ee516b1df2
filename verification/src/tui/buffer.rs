//! [`Cell`]s and the [`Buffer`] that holds one terminal image of them.

use vstd::prelude::*;
use crate::tui::rect::Rect;
use crate::tui::style::Style;

verus! {

/// What one cell of the terminal shows.
#[derive(Debug, Clone, Copy, PartialEq, Eq, Structural)]
pub struct Cell {
    /// The character at this place.
    pub symbol: char,
    /// The style of the character.
    pub style: Style,
}

impl Cell {
    /// A space in the plain style.
    pub open spec fn blank() -> Cell {
        Cell { symbol: ' ', style: Style::plain() }
    }
}

impl Default for Cell {
    fn default() -> (r: Self)
        ensures
            r == Cell::blank(),
    {
        Cell { symbol: ' ', style: Style::default() }
    }
}

/// The cell at offset `i` of `cells`, with its column and row in a grid that
/// is `width` cells wide.
pub open spec fn placed(cells: Seq<Cell>, width: int, i: int) -> (Cell, u16, u16) {
    (cells[i], (i % width) as u16, (i / width) as u16)
}

/// The offset, among the cells of a grid that is `width` cells wide, of the
/// cell in column `x` of row `y`.
pub open spec fn offset_of(width: int, x: int, y: int) -> int {
    y * width + x
}

/// Every cell of `cells` with its column and row, in row-major order.
pub open spec fn enumerated(cells: Seq<Cell>, width: int) -> Seq<(Cell, u16, u16)> {
    Seq::new(cells.len(), |i: int| placed(cells, width, i))
}

/// Those of the first `n` cells of `a` that differ from the cell of `b` at
/// the same offset, with their columns and rows, in row-major order.
pub open spec fn changed(a: Seq<Cell>, b: Seq<Cell>, width: int, n: int) -> Seq<(Cell, u16, u16)>
    decreases n,
{
    if n <= 0 {
        Seq::empty()
    } else if a[n - 1] != b[n - 1] {
        changed(a, b, width, n - 1).push(placed(a, width, n - 1))
    } else {
        changed(a, b, width, n - 1)
    }
}

/// `cells` with `style` on each place of `region`, in a grid that is `width`
/// cells wide.
pub open spec fn styled(cells: Seq<Cell>, width: int, style: Style, region: Rect) -> Seq<Cell> {
    Seq::new(
        cells.len(),
        |i: int|
            if region.has_cell(i % width, i / width) {
                Cell { symbol: cells[i].symbol, style }
            } else {
                cells[i]
            },
    )
}

/// `cell` with the symbol that `glyphs` has for column `x` of row `y`, if it
/// has one. The style stays.
pub open spec fn with_glyph(cell: Cell, glyphs: Map<(int, int), char>, x: int, y: int) -> Cell {
    if glyphs.contains_key((x, y)) {
        Cell { symbol: glyphs[(x, y)], style: cell.style }
    } else {
        cell
    }
}

/// `cells` with the symbols of `glyphs` put on them: the cell in column `x`
/// of row `y` shows the symbol that `glyphs` has for `(x, y)`, if it has one.
/// The grid is `width` cells wide, and the styles stay.
pub open spec fn overlaid(cells: Seq<Cell>, width: int, glyphs: Map<(int, int), char>) -> Seq<Cell> {
    Seq::new(cells.len(), |i: int| with_glyph(cells[i], glyphs, i % width, i / width))
}

/// Cells with nothing put on them are as they were.
pub proof fn lemma_overlaid_nothing(cells: Seq<Cell>, w: int)
    ensures
        overlaid(cells, w, Map::empty()) == cells,
{
    assert(overlaid(cells, w, Map::empty()) =~= cells);
}

/// Putting one symbol more on cells: the cells overlaid with `glyphs` and
/// with `c` for column `x` of row `y` are those overlaid with `glyphs`, with
/// `c` put at that place if the grid has it. A symbol for a place that the
/// grid lacks changes nothing.
pub proof fn lemma_overlaid_step(
    cells: Seq<Cell>,
    w: int,
    h: int,
    glyphs: Map<(int, int), char>,
    x: int,
    y: int,
    c: char,
)
    requires
        0 <= w,
        0 <= h,
        cells.len() == w * h,
    ensures
        overlaid(cells, w, glyphs.insert((x, y), c)) == if 0 <= x < w && 0 <= y < h {
            overlaid(cells, w, glyphs).update(
                offset_of(w, x, y),
                Cell { symbol: c, style: overlaid(cells, w, glyphs)[offset_of(w, x, y)].style },
            )
        } else {
            overlaid(cells, w, glyphs)
        },
{
    let drawn = overlaid(cells, w, glyphs);
    let now = glyphs.insert((x, y), c);
    let at = y * w + x;
    if 0 <= x < w && 0 <= y < h {
        lemma_grid_place(w, h, x, y);
    }
    let next = if 0 <= x < w && 0 <= y < h {
        drawn.update(at, Cell { symbol: c, style: drawn[at].style })
    } else {
        drawn
    };
    assert forall|i: int| 0 <= i < cells.len() implies overlaid(cells, w, now)[i] == next[i] by {
        lemma_grid_offsets(w, h, i);
        let a = i % w;
        let b = i / w;
        if a == x && b == y {
            assert(b * w == y * w) by (nonlinear_arith)
                requires
                    b == y,
            ;
            assert(i == at);
        } else {
            if 0 <= x < w && 0 <= y < h {
                assert(i != at);
            }
        }
    }
    assert(overlaid(cells, w, now) =~= next);
}

/// `n` blank cells.
pub open spec fn blanks(n: nat) -> Seq<Cell> {
    Seq::new(n, |i: int| Cell::blank())
}

/// `cells` cut or filled up with blank cells to the length `n`.
pub open spec fn resized(cells: Seq<Cell>, n: nat) -> Seq<Cell> {
    Seq::new(
        n,
        |i: int|
            if i < cells.len() {
                cells[i]
            } else {
                Cell::blank()
            },
    )
}

/// Every cell of `items` with its column and row in `area`, in row-major
/// order.
pub fn enumerate_2d(items: &Vec<Cell>, area: Rect) -> (r: Vec<(Cell, u16, u16)>)
    requires
        items@.len() == area.area(),
    ensures
        r@ == enumerated(items@, area.width as int),
{
    let width = area.width as usize;
    let mut out: Vec<(Cell, u16, u16)> = Vec::new();
    let mut i: usize = 0;
    while i < items.len()
        invariant
            i <= items.len(),
            width == area.width,
            items@.len() == area.width * area.height,
            out@ == enumerated(items@, area.width as int).take(i as int),
        decreases items.len() - i,
    {
        proof {
            lemma_grid_offsets(area.width as int, area.height as int, i as int);
        }
        out.push((items[i], (i % width) as u16, (i / width) as u16));
        i += 1;
    }
    out
}

/// An offset into a grid has a column below the grid's width and a row
/// below its height.
pub proof fn lemma_grid_offsets(w: int, h: int, i: int)
    requires
        0 <= w,
        0 <= h,
        0 <= i < w * h,
    ensures
        w > 0,
        0 <= i % w < w,
        0 <= i / w < h,
        (i / w) * w + i % w == i,
{
    if w == 0 {
        assert(w * h == 0) by (nonlinear_arith)
            requires
                w == 0,
        ;
    }
    assert(0 <= i % w < w && 0 <= i / w < h && (i / w) * w + i % w == i) by (nonlinear_arith)
        requires
            0 <= i < w * h,
            w > 0,
            h >= 0,
    ;
}

/// The place in column `x` of row `y` of a grid has an offset into the
/// grid's cells, and that offset has this column and row.
pub proof fn lemma_grid_place(w: int, h: int, x: int, y: int)
    requires
        0 <= x < w,
        0 <= y < h,
    ensures
        0 <= y * w + x < w * h,
        (y * w + x) % w == x,
        (y * w + x) / w == y,
{
    assert(0 <= y * w <= y * w + x < w * h) by (nonlinear_arith)
        requires
            0 <= x < w,
            0 <= y < h,
    ;
    vstd::arithmetic::div_mod::lemma_fundamental_div_mod_converse(y * w + x, w, y, x);
}

/// No cell differs from itself.
pub proof fn lemma_changed_same(a: Seq<Cell>, width: int, n: int)
    ensures
        changed(a, a, width, n) == Seq::<(Cell, u16, u16)>::empty(),
    decreases n,
{
    if n > 0 {
        lemma_changed_same(a, width, n - 1);
    }
}

/// An entry is among the changed cells exactly if it is a cell that differs,
/// with its place.
pub proof fn lemma_changed_exact(a: Seq<Cell>, b: Seq<Cell>, width: int, n: int)
    ensures
        forall|e: (Cell, u16, u16)|
            changed(a, b, width, n).contains(e) <==> exists|i: int|
                0 <= i < n && a[i] != b[i] && e == #[trigger] placed(a, width, i),
    decreases n,
{
    let now = changed(a, b, width, n);
    if n > 0 {
        lemma_changed_exact(a, b, width, n - 1);
        let before = changed(a, b, width, n - 1);
        let last = placed(a, width, n - 1);
        assert forall|e: (Cell, u16, u16)| now.contains(e) implies exists|i: int|
            0 <= i < n && a[i] != b[i] && e == #[trigger] placed(a, width, i) by {
            let k = choose|k: int| 0 <= k < now.len() && now[k] == e;
            if a[n - 1] != b[n - 1] && k == before.len() {
                assert(e == placed(a, width, n - 1));
            } else {
                assert(before[k] == e);
                assert(before.contains(e));
                let i = choose|i: int|
                    0 <= i < n - 1 && a[i] != b[i] && e == #[trigger] placed(a, width, i);
                assert(0 <= i < n && a[i] != b[i] && e == placed(a, width, i));
            }
        }
        assert forall|e: (Cell, u16, u16)|
            (exists|i: int|
                0 <= i < n && a[i] != b[i] && e == #[trigger] placed(
                    a,
                    width,
                    i,
                )) implies now.contains(e) by {
            let i = choose|i: int| 0 <= i < n && a[i] != b[i] && e == #[trigger] placed(a, width, i);
            if i == n - 1 {
                assert(now[before.len() as int] == e);
            } else {
                assert(before.contains(e));
                let k = choose|k: int| 0 <= k < before.len() && before[k] == e;
                assert(now[k] == e);
            }
        }
    } else {
        assert forall|e: (Cell, u16, u16)| !now.contains(e) by {}
    }
}

/// A terminal image: the cells of a region, row by row.
#[derive(Debug)]
pub struct Buffer {
    /// The cells, in row-major order.
    content: Vec<Cell>,
    /// The region that the buffer stands for.
    area: Rect,
}

impl Clone for Buffer {
    fn clone(&self) -> (r: Self)
        ensures
            r.cells() == self.cells(),
            r.region() == self.region(),
            r.well_formed(),
    {
        proof {
            use_type_invariant(self);
        }
        let content = self.content.clone();
        assert(content@ == self.content@);
        Buffer { content, area: self.area }
    }
}

impl Buffer {
    /// A buffer has one cell for each place of its region.
    #[verifier::type_invariant]
    pub open spec fn well_formed(self) -> bool {
        self.cells().len() == self.region().area()
    }

    /// The cells of the buffer, in row-major order.
    pub closed spec fn cells(self) -> Seq<Cell> {
        self.content@
    }

    /// The region that the buffer stands for.
    pub closed spec fn region(self) -> Rect {
        self.area
    }

    /// What [`Buffer::diff`] gives for two buffers: every cell of `self`
    /// where the regions differ, and else the cells of `self` that differ
    /// from those of `other`.
    pub open spec fn diff_of(self, other: Buffer) -> Seq<(Cell, u16, u16)> {
        if self.region() != other.region() {
            enumerated(self.cells(), self.region().width as int)
        } else {
            changed(
                self.cells(),
                other.cells(),
                self.region().width as int,
                self.cells().len() as int,
            )
        }
    }

    /// A well-formed buffer's cells can be counted in a `usize`, and each has
    /// a column and a row that fit in a `u16`.
    pub proof fn lemma_len(self)
        requires
            self.well_formed(),
        ensures
            self.cells().len() <= 0xffff * 0xffff,
            self.cells().len() > 0 ==> self.region().width > 0,
            forall|i: int|
                0 <= i < self.cells().len() ==> {
                    &&& 0 <= #[trigger] (i % self.region().width as int) < self.region().width
                    &&& 0 <= #[trigger] (i / self.region().width as int) < self.region().height
                },
    {
        let w = self.region().width as int;
        let h = self.region().height as int;
        assert(w * h <= 0xffff * 0xffff) by (nonlinear_arith)
            requires
                0 <= w <= 0xffff,
                0 <= h <= 0xffff,
        ;
        if w == 0 {
            assert(w * h == 0) by (nonlinear_arith)
                requires
                    w == 0,
            ;
        }
        assert forall|i: int| 0 <= i < self.cells().len() implies {
            &&& 0 <= #[trigger] (i % w) < w
            &&& 0 <= #[trigger] (i / w) < h
        } by {
            assert(0 <= i % w < w && 0 <= i / w < h) by (nonlinear_arith)
                requires
                    0 <= i < w * h,
                    w > 0,
                    h >= 0,
            ;
        }
    }

    /// A buffer of blank cells for `area`.
    pub fn new(area: Rect) -> (r: Buffer)
        ensures
            r.region() == area,
            r.cells() == blanks(area.area()),
            r.well_formed(),
    {
        let mut content: Vec<Cell> = Vec::new();
        let ghost w = area.width as int;
        let ghost h = area.height as int;
        assert(0 <= w * h <= 0xffff * 0xffff) by (nonlinear_arith)
            requires
                0 <= w <= 0xffff,
                0 <= h <= 0xffff,
        ;
        let n = area.width as usize * area.height as usize;
        content.resize(n, Cell::default());
        assert(content@ == blanks(n as nat));
        Buffer { content, area }
    }

    /// The cell in column `x` of row `y`, if the region has such a place.
    pub fn get(&self, x: u16, y: u16) -> (r: Option<Cell>)
        ensures
            self.well_formed(),
            r == if x < self.region().width && y < self.region().height {
                Some(self.cells()[offset_of(self.region().width as int, x as int, y as int)])
            } else {
                None
            },
    {
        proof {
            use_type_invariant(self);
        }
        if x < self.area.width && y < self.area.height {
            proof {
                lemma_grid_place(
                    self.area.width as int,
                    self.area.height as int,
                    x as int,
                    y as int,
                );
                self.lemma_len();
            }
            Some(self.content[y as usize * self.area.width as usize + x as usize])
        } else {
            None
        }
    }

    /// Puts `symbol` into column `x` of row `y` and leaves the style of that
    /// place as it is. Nothing changes if the region has no such place.
    pub fn set_symbol(&mut self, symbol: char, x: u16, y: u16)
        ensures
            final(self).region() == old(self).region(),
            final(self).well_formed(),
            final(self).cells() == if x < old(self).region().width && y < old(self).region().height {
                let i = offset_of(old(self).region().width as int, x as int, y as int);
                old(self).cells().update(i, Cell { symbol, style: old(self).cells()[i].style })
            } else {
                old(self).cells()
            },
    {
        proof {
            use_type_invariant(&*self);
        }
        if x < self.area.width && y < self.area.height {
            proof {
                lemma_grid_place(
                    self.area.width as int,
                    self.area.height as int,
                    x as int,
                    y as int,
                );
                self.lemma_len();
            }
            let i = y as usize * self.area.width as usize + x as usize;
            let style = self.content[i].style;
            self.content[i] = Cell { symbol, style };
        }
    }

    /// Puts `symbol` into the cell at offset `i`, in the plain style.
    pub fn set(&mut self, symbol: char, i: usize)
        requires
            i < old(self).cells().len(),
        ensures
            final(self).region() == old(self).region(),
            final(self).well_formed(),
            final(self).cells() == old(self).cells().update(
                i as int,
                Cell { symbol, style: Style::plain() },
            ),
    {
        proof {
            use_type_invariant(&*self);
        }
        self.content[i] = Cell { symbol, style: Style::default() };
    }

    /// Gives column `x` of row `y` the style `style` and leaves the symbol of
    /// that place as it is. Nothing changes if the region has no such place.
    pub fn set_style(&mut self, style: Style, x: u16, y: u16)
        ensures
            final(self).region() == old(self).region(),
            final(self).well_formed(),
            final(self).cells() == if x < old(self).region().width && y < old(self).region().height {
                let i = offset_of(old(self).region().width as int, x as int, y as int);
                old(self).cells().update(i, Cell { symbol: old(self).cells()[i].symbol, style })
            } else {
                old(self).cells()
            },
    {
        proof {
            use_type_invariant(&*self);
        }
        if x < self.area.width && y < self.area.height {
            proof {
                lemma_grid_place(
                    self.area.width as int,
                    self.area.height as int,
                    x as int,
                    y as int,
                );
                self.lemma_len();
            }
            let i = y as usize * self.area.width as usize + x as usize;
            let symbol = self.content[i].symbol;
            self.content[i] = Cell { symbol, style };
        }
    }

    /// Gives every place of the buffer that lies in `region` the style
    /// `style`, and leaves the symbols as they are.
    pub fn style_region(&mut self, style: Style, region: Rect)
        ensures
            final(self).region() == old(self).region(),
            final(self).well_formed(),
            final(self).cells() == styled(
                old(self).cells(),
                old(self).region().width as int,
                style,
                region,
            ),
    {
        proof {
            use_type_invariant(&*self);
        }
        let width = self.area.width as usize;
        let ghost before = self.content@;
        let ghost after = styled(before, width as int, style, region);
        let mut i: usize = 0;
        while i < self.content.len()
            invariant
                i <= self.content.len(),
                width == self.area.width,
                self.area == old(self).area,
                self.content@.len() == self.area.width * self.area.height,
                self.content@.len() == before.len(),
                after == styled(before, width as int, style, region),
                forall|j: int| 0 <= j < i ==> self.content@[j] == after[j],
                forall|j: int| i <= j < before.len() ==> self.content@[j] == before[j],
            decreases self.content.len() - i,
        {
            proof {
                lemma_grid_offsets(self.area.width as int, self.area.height as int, i as int);
            }
            let x = (i % width) as u32;
            let y = (i / width) as u32;
            if region.left as u32 <= x && x < region.left as u32 + region.width as u32
                && region.top as u32 <= y && y < region.top as u32 + region.height as u32 {
                let symbol = self.content[i].symbol;
                self.content[i] = Cell { symbol, style };
            }
            i += 1;
        }
        assert(self.content@ == after);
    }

    /// Every cell of `self` where the two buffers stand for different
    /// regions, and else those cells of `self` that differ from the cell of
    /// `other` at the same place; each with its column and row, in row-major
    /// order.
    pub fn diff(&self, other: &Buffer) -> (r: Vec<(Cell, u16, u16)>)
        ensures
            r@ == self.diff_of(*other),
    {
        proof {
            use_type_invariant(self);
            use_type_invariant(other);
        }
        if self.area != other.area {
            enumerate_2d(&self.content, self.area)
        } else {
            let width = self.area.width as usize;
            let mut out: Vec<(Cell, u16, u16)> = Vec::new();
            let mut i: usize = 0;
            while i < self.content.len()
                invariant
                    i <= self.content.len(),
                    width == self.area.width,
                    self.content@.len() == self.area.width * self.area.height,
                    other.content@.len() == self.content@.len(),
                    out@ == changed(self.content@, other.content@, width as int, i as int),
                decreases self.content.len() - i,
            {
                proof {
                    lemma_grid_offsets(self.area.width as int, self.area.height as int, i as int);
                }
                let cell = self.content[i];
                if cell != other.content[i] {
                    out.push((cell, (i % width) as u16, (i / width) as u16));
                }
                i += 1;
            }
            out
        }
    }

    /// Gives the buffer the region `new_area`: the cells are cut, or filled
    /// up with blank cells, to the number of places of the new region.
    pub fn resize(&mut self, new_area: Rect)
        ensures
            final(self).region() == new_area,
            final(self).cells() == resized(old(self).cells(), new_area.area()),
            final(self).well_formed(),
    {
        let ghost w = new_area.width as int;
        let ghost h = new_area.height as int;
        assert(0 <= w * h <= 0xffff * 0xffff) by (nonlinear_arith)
            requires
                0 <= w <= 0xffff,
                0 <= h <= 0xffff,
        ;
        let n = new_area.width as usize * new_area.height as usize;
        let nothing: Vec<Cell> = Vec::new();
        let nowhere = Rect { top: 0, left: 0, height: 0, width: 0 };
        assert(nothing@.len() == nowhere.width * nowhere.height);
        let mut taken = Buffer { content: nothing, area: nowhere };
        std::mem::swap(self, &mut taken);
        let Buffer { content: mut content, area: _ } = taken;
        let ghost before = content@;
        content.resize(n, Cell::default());
        assert(content@ == resized(before, n as nat));
        *self = Buffer { content, area: new_area };
    }

    /// Makes every cell blank.
    pub fn clear(&mut self)
        ensures
            final(self).region() == old(self).region(),
            final(self).cells() == blanks(old(self).cells().len()),
            final(self).well_formed(),
    {
        proof {
            use_type_invariant(&*self);
        }
        let mut i: usize = 0;
        while i < self.content.len()
            invariant
                i <= self.content.len(),
                self.area == old(self).area,
                self.content@.len() == old(self).content@.len(),
                self.content@.len() == self.area.width * self.area.height,
                forall|j: int| 0 <= j < i ==> self.content@[j] == Cell::blank(),
            decreases self.content.len() - i,
        {
            self.content[i] = Cell::default();
            i += 1;
        }
        assert(self.content@ == blanks(old(self).content@.len()));
    }

    /// A buffer does not differ from itself.
    pub proof fn lemma_diff_same(b: Buffer)
        ensures
            b.diff_of(b) == Seq::<(Cell, u16, u16)>::empty(),
    {
        lemma_changed_same(b.cells(), b.region().width as int, b.cells().len() as int);
    }

    /// Between two buffers for one region, the difference holds the cells of
    /// the first that differ from the second, each with its place, and
    /// nothing else.
    pub proof fn lemma_diff_exact(a: Buffer, b: Buffer)
        requires
            a.well_formed(),
            b.well_formed(),
            a.region() == b.region(),
        ensures
            forall|e: (Cell, u16, u16)|
                a.diff_of(b).contains(e) <==> exists|i: int|
                    0 <= i < a.cells().len() && a.cells()[i] != b.cells()[i] && e == #[trigger] placed(
                        a.cells(),
                        a.region().width as int,
                        i,
                    ),
            forall|x: int, y: int|
                0 <= x < a.region().width && 0 <= y < a.region().height ==> {
                    let i = #[trigger] offset_of(a.region().width as int, x, y);
                    a.cells()[i] != b.cells()[i] <==> a.diff_of(b).contains(
                        (a.cells()[i], x as u16, y as u16),
                    )
                },
    {
        let w = a.region().width as int;
        let h = a.region().height as int;
        let n = a.cells().len() as int;
        lemma_changed_exact(a.cells(), b.cells(), w, n);
        assert forall|x: int, y: int| 0 <= x < w && 0 <= y < h implies {
            let i = #[trigger] offset_of(w, x, y);
            a.cells()[i] != b.cells()[i] <==> a.diff_of(b).contains(
                (a.cells()[i], x as u16, y as u16),
            )
        } by {
            lemma_grid_place(w, h, x, y);
            let i = y * w + x;
            let e = (a.cells()[i], x as u16, y as u16);
            assert(e == placed(a.cells(), w, i));
            if a.diff_of(b).contains(e) {
                let j = choose|j: int|
                    0 <= j < n && a.cells()[j] != b.cells()[j] && e == placed(a.cells(), w, j);
                lemma_grid_offsets(w, h, j);
                assert(j == i);
            }
        }
    }

    /// After a buffer was given another region and then its first region
    /// again, each cell whose offset lies in both regions is what it was,
    /// and every other cell is blank.
    pub proof fn lemma_resize_and_back(b: Buffer, via: Rect)
        requires
            b.well_formed(),
        ensures
            resized(resized(b.cells(), via.area()), b.cells().len()) == Seq::new(
                b.cells().len(),
                |i: int|
                    if i < via.area() {
                        b.cells()[i]
                    } else {
                        Cell::blank()
                    },
            ),
            forall|x: int, y: int|
                0 <= x < b.region().width && 0 <= y < b.region().height && #[trigger] offset_of(
                    b.region().width as int,
                    x,
                    y,
                ) < via.area() ==> resized(
                    resized(b.cells(), via.area()),
                    b.cells().len(),
                )[offset_of(b.region().width as int, x, y)] == b.cells()[offset_of(
                    b.region().width as int,
                    x,
                    y,
                )],
    {
        let w = via.width as int;
        let h = via.height as int;
        assert(0 <= w * h) by (nonlinear_arith)
            requires
                0 <= w,
                0 <= h,
        ;
        assert forall|x: int, y: int|
            0 <= x < b.region().width && 0 <= y < b.region().height && #[trigger] offset_of(
                b.region().width as int,
                x,
                y,
            ) < via.area() implies resized(
            resized(b.cells(), via.area()),
            b.cells().len(),
        )[offset_of(b.region().width as int, x, y)] == b.cells()[offset_of(
            b.region().width as int,
            x,
            y,
        )] by {
            lemma_grid_place(b.region().width as int, b.region().height as int, x, y);
        }
    }

    /// The region that the buffer stands for.
    pub fn area(&self) -> (r: Rect)
        ensures
            r == self.region(),
            self.well_formed(),
    {
        proof {
            use_type_invariant(self);
        }
        self.area
    }

    /// The number of cells.
    pub fn len(&self) -> (r: usize)
        ensures
            r == self.cells().len(),
            self.well_formed(),
    {
        proof {
            use_type_invariant(self);
        }
        self.content.len()
    }
}

} // verus!
