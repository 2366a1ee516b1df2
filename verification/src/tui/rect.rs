//! [`Rect`], a region of the terminal screen, and the [`Partition`] strategies
//! that split one region into several.

use vstd::prelude::*;

verus! {

/// A rectangular region of the terminal, in cell coordinates.
#[derive(Debug, Clone, Copy, PartialEq, Eq, Structural)]
pub struct Rect {
    /// The coordinate of the top side of the rectangle.
    pub top: u16,
    /// The coordinate of the left side of the rectangle.
    pub left: u16,
    /// Height of the rectangle.
    pub height: u16,
    /// Width of the rectangle.
    pub width: u16,
}

impl Default for Rect {
    fn default() -> (r: Self)
        ensures
            r == (Rect { top: 0, left: 0, height: 0, width: 0 }),
    {
        Rect { top: 0, left: 0, height: 0, width: 0 }
    }
}

impl Rect {
    /// The number of cells in the region.
    pub open spec fn area(self) -> nat {
        (self.width * self.height) as nat
    }

    /// Whether the cell in column `x` of row `y` lies in the region.
    pub open spec fn has_cell(self, x: int, y: int) -> bool {
        &&& self.left <= x < self.left + self.width
        &&& self.top <= y < self.top + self.height
    }

    /// Whether every cell of `inner` lies in `self`.
    pub open spec fn encloses(self, inner: Rect) -> bool {
        &&& self.left <= inner.left
        &&& inner.left + inner.width <= self.left + self.width
        &&& self.top <= inner.top
        &&& inner.top + inner.height <= self.top + self.height
    }

    /// Splits the region with the given [`Partition`] strategy.
    ///
    /// `rect.partition(strategy)` is `strategy.partition(rect)`.
    #[inline]
    pub fn partition<S: Partition>(self, partition: S) -> (parts: Vec<Rect>)
        requires
            partition.accepts(self),
        ensures
            parts@ == partition.parts(self),
    {
        partition.partition(self)
    }
}

/// A strategy that turns a single [`Rect`] into several smaller ones.
///
/// The parts should be a non-overlapping, complete covering of the given
/// [`Rect`] that does not spill beyond it.
pub trait Partition {
    /// The regions that this strategy can split.
    spec fn accepts(&self, area: Rect) -> bool;

    /// The parts that this strategy makes of `area`, in order.
    spec fn parts(&self, area: Rect) -> Seq<Rect>;

    /// Splits `area` into its parts.
    fn partition(&self, area: Rect) -> (parts: Vec<Rect>)
        requires
            self.accepts(area),
        ensures
            parts@ == self.parts(area),
    ;
}

/// Splits a [`Rect`] into its bottom row and the rest.
///
/// Part 0 is the bottom row, part 1 is everything above it.
pub struct Bottom;

impl Bottom {
    /// The bottom row of `area`.
    pub open spec fn bottom_row(area: Rect) -> Rect {
        Rect {
            top: (area.top + area.height - 1) as u16,
            left: area.left,
            height: 1,
            width: area.width,
        }
    }

    /// All of `area` but its bottom row.
    pub open spec fn above(area: Rect) -> Rect {
        Rect {
            top: area.top,
            left: area.left,
            height: (area.height - 1) as u16,
            width: area.width,
        }
    }

    /// The two parts of a bottom split lie inside the region that was split,
    /// and each of its cells is in exactly one of them.
    pub proof fn lemma_parts_tile(area: Rect)
        requires
            Bottom.accepts(area),
        ensures
            area.encloses(Bottom.parts(area)[0]),
            area.encloses(Bottom.parts(area)[1]),
            forall|x: int, y: int|
                area.has_cell(x, y) <==> (Bottom.parts(area)[0].has_cell(x, y)
                    != Bottom.parts(area)[1].has_cell(x, y)),
            forall|x: int, y: int|
                !(Bottom.parts(area)[0].has_cell(x, y) && Bottom.parts(area)[1].has_cell(x, y)),
    {
    }
}

impl Partition for Bottom {
    /// A region can be split when it has a bottom row, and that row's
    /// coordinate is one that a terminal can have.
    open spec fn accepts(&self, area: Rect) -> bool {
        area.height >= 1 && area.top + area.height - 1 <= u16::MAX
    }

    open spec fn parts(&self, area: Rect) -> Seq<Rect> {
        seq![Bottom::bottom_row(area), Bottom::above(area)]
    }

    fn partition(&self, area: Rect) -> (parts: Vec<Rect>) {
        let mut parts: Vec<Rect> = Vec::new();
        parts.push(Rect { top: area.top + (area.height - 1), height: 1, ..area });
        parts.push(Rect { height: area.height - 1, ..area });
        parts
    }
}

} // verus!
