//! An in-memory framebuffer.
use vstd::prelude::*;
use crate::color::Color;
use crate::geom::{Pos, Rect};
use crate::grid::{
    grid_cells, grid_fill_rect_iter, grid_fill_rect_solid, grid_get, grid_height, grid_new,
    grid_set, grid_size, grid_width, in_extent, PixelGrid,
};
use crate::target::{filled, DrawTarget};

verus! {

/// An in-memory buffer for reading and writing pixels: a row-major grid of packed RGBA colors.
pub struct Framebuffer {
    inner: PixelGrid,
}

impl Framebuffer {
    /// A `width` by `height` buffer whose every pixel holds the zero color.
    #[must_use]
    pub fn new(width: usize, height: usize) -> (r: Framebuffer)
        requires
            width * height * 4 <= isize::MAX,
        ensures
            r.inv(),
            r.size() == (width, height),
            r.cells() == Map::new(
                |k: (usize, usize)| in_extent(width, height, k.0 as int, k.1 as int),
                |k: (usize, usize)| 0u32,
            ),
    {
        let inner = grid_new(width, height);
        let r = Framebuffer { inner };
        assert(r.cells().dom() =~= Set::new(
            |k: (usize, usize)| in_extent(width, height, k.0 as int, k.1 as int),
        ));
        r
    }

    /// The number of columns of the buffer.
    pub fn width(&self) -> (r: usize)
        ensures
            r == self.size().0,
    {
        grid_width(&self.inner)
    }

    /// The number of rows of the buffer.
    pub fn height(&self) -> (r: usize)
        ensures
            r == self.size().1,
    {
        grid_height(&self.inner)
    }

    /// The color at `pos`, or `None` when `pos` is outside the buffer.
    pub fn get(&self, pos: Pos) -> (r: Option<Color>)
        requires
            self.inv(),
        ensures
            r == (if self.cells().dom().contains((pos.x, pos.y)) {
                Some(self.cells()[(pos.x, pos.y)])
            } else {
                None
            }),
    {
        grid_get(&self.inner, pos)
    }

    /// The grid that holds the pixels, for operations beyond drawing (such as reading the raw
    /// colors out for export).
    pub fn as_inner(&self) -> (r: &PixelGrid)
        ensures
            grid_cells(*r) == self.cells(),
            grid_size(*r) == self.size(),
    {
        &self.inner
    }

    /// Gives up the buffer, returning the grid that holds its pixels.
    pub fn into_inner(self) -> (r: PixelGrid)
        ensures
            grid_cells(r) == self.cells(),
            grid_size(r) == self.size(),
    {
        self.inner
    }
}

impl AsRef<PixelGrid> for Framebuffer {
    /// The grid the buffer wraps.
    fn as_ref(&self) -> (r: &PixelGrid)
        ensures
            grid_cells(*r) == self.cells(),
            grid_size(*r) == self.size(),
    {
        &self.inner
    }
}

impl AsMut<PixelGrid> for Framebuffer {
    /// The grid the buffer wraps, for changes that the buffer then holds.
    fn as_mut(&mut self) -> (r: &mut PixelGrid)
        ensures
            grid_cells(*r) == old(self).cells(),
            grid_size(*r) == old(self).size(),
            grid_cells(*final(r)) == final(self).cells(),
            grid_size(*final(r)) == final(self).size(),
    {
        &mut self.inner
    }
}

impl DrawTarget for Framebuffer {
    /// Drawing in memory cannot fail.
    type Error = core::convert::Infallible;

    closed spec fn cells(&self) -> Map<(usize, usize), Color> {
        grid_cells(self.inner)
    }

    closed spec fn size(&self) -> (usize, usize) {
        grid_size(self.inner)
    }

    /// The addressable cells are exactly those below the width and the height.
    open spec fn inv(&self) -> bool {
        forall|k: (usize, usize)|
            #![trigger self.cells().dom().contains(k)]
            self.cells().dom().contains(k) <==> in_extent(
                self.size().0,
                self.size().1,
                k.0 as int,
                k.1 as int,
            )
    }

    open spec fn infallible() -> bool {
        true
    }

    /// Stores `color` at `pos`; the grid's out-of-bounds signal is dropped, as out of bounds is no
    /// error here.
    fn draw_pixel(&mut self, pos: Pos, color: Color) -> (r: Result<(), Self::Error>) {
        let _ = grid_set(&mut self.inner, pos, color);
        assert(self.cells().dom() =~= old(self).cells().dom());
        Ok(())
    }

    /// Fills the grid's part of `rect` in one bulk operation.
    fn fill_rect(&mut self, rect: Rect, color: Color) -> (r: Result<(), Self::Error>) {
        if rect.left <= rect.right && rect.top <= rect.bottom {
            grid_fill_rect_solid(&mut self.inner, rect, color);
        } else {
            assert(self.cells() =~= filled(self.cells(), rect, color));
        }
        assert(self.cells().dom() =~= old(self).cells().dom());
        Ok(())
    }

    /// Fills a rectangle inside the grid in one bulk operation; a rectangle that reaches past
    /// the grid is paired pixel by pixel, so that its skipped positions still use up colors.
    fn fill_rect_iter(&mut self, rect: Rect, colors: &[Color]) -> (r: Result<(), Self::Error>) {
        let width = grid_width(&self.inner);
        let height = grid_height(&self.inner);
        if rect.left <= rect.right && rect.right <= width && rect.top <= rect.bottom
            && rect.bottom <= height {
            grid_fill_rect_iter(&mut self.inner, rect, colors);
            assert(self.cells().dom() =~= old(self).cells().dom());
            Ok(())
        } else {
            self.draw_paired(rect, colors)
        }
    }
}

} // verus!
