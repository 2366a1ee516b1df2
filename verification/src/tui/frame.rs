//! A [`Frame`] is the handle through which one image is drawn: it gives
//! access to the buffer that is being composed, one character or one region
//! at a time.

use vstd::prelude::*;
use crate::tui::buffer::{Buffer, Cell, blanks, offset_of, overlaid, styled};
use crate::tui::text::Render;
use crate::tui::rect::Rect;
use crate::tui::style::Style;

verus! {

/// A handle for drawing into a [`Buffer`].
///
/// Whatever draws through a frame leaves the frame on the buffer that it was
/// made for. Each drawing function says so in the first clause of its
/// `ensures`, which is what lets a proof carry what was drawn back to the
/// owner of the buffer.
pub struct Frame<'a> {
    /// The buffer that is drawn to.
    pub buffer: &'a mut Buffer,
}

impl<'a> Frame<'a> {
    /// The buffer as it is drawn so far.
    pub open spec fn grid(self) -> Buffer {
        *self.buffer
    }

    /// A frame over `buffer`.
    pub fn new(buffer: &'a mut Buffer) -> (r: Frame<'a>)
        ensures
            r.grid() == *old(buffer),
            *final(r.buffer) == *final(buffer),
    {
        Frame { buffer }
    }

    /// The region of the buffer that is drawn to.
    pub fn size(&self) -> (r: Rect)
        ensures
            r == self.grid().region(),
            self.grid().well_formed(),
    {
        self.buffer.area()
    }

    /// Puts `c` into column `x` of row `y`. Nothing changes if the buffer has
    /// no such place.
    pub fn set_char(&mut self, c: char, x: u16, y: u16)
        ensures
            *final(final(self).buffer) == *final(old(self).buffer),
            final(self).grid().region() == old(self).grid().region(),
            final(self).grid().well_formed(),
            final(self).grid().cells() == if x < old(self).grid().region().width && y < old(
                self,
            ).grid().region().height {
                let i = offset_of(old(self).grid().region().width as int, x as int, y as int);
                old(self).grid().cells().update(
                    i,
                    Cell { symbol: c, style: old(self).grid().cells()[i].style },
                )
            } else {
                old(self).grid().cells()
            },
    {
        self.buffer.set_symbol(c, x, y);
    }

    /// Draws `item` to `region` of the frame.
    pub fn render<R: Render>(&mut self, item: &R, region: Rect)
        requires
            item.fits(region),
        ensures
            *final(final(self).buffer) == *final(old(self).buffer),
            final(self).grid().region() == old(self).grid().region(),
            final(self).grid().well_formed(),
            final(self).grid().cells() == overlaid(
                old(self).grid().cells(),
                old(self).grid().region().width as int,
                item.glyphs(region),
            ),
    {
        item.render(self, region);
    }

    /// The region of the buffer that is drawn to.
    pub fn region(&self) -> (r: Rect)
        ensures
            r == self.grid().region(),
            self.grid().well_formed(),
    {
        self.buffer.area()
    }

    /// Gives every place of the buffer that lies in `region` the style
    /// `style`, and leaves the symbols as they are.
    pub fn set_style(&mut self, style: Style, region: Rect)
        ensures
            *final(final(self).buffer) == *final(old(self).buffer),
            final(self).grid().region() == old(self).grid().region(),
            final(self).grid().well_formed(),
            final(self).grid().cells() == styled(
                old(self).grid().cells(),
                old(self).grid().region().width as int,
                style,
                region,
            ),
    {
        self.buffer.style_region(style, region);
    }

    /// Makes every cell of the buffer blank.
    pub fn clear(&mut self)
        ensures
            *final(final(self).buffer) == *final(old(self).buffer),
            final(self).grid().region() == old(self).grid().region(),
            final(self).grid().well_formed(),
            final(self).grid().cells() == blanks(old(self).grid().cells().len()),
    {
        self.buffer.clear();
    }
}

} // verus!
