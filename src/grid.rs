//! The row-major grid of colors that backs a framebuffer, provided by grixy.
//!
//! The grid is opaque to the verifier; its contents and its size are named by
//! [`grid_cells`] and [`grid_size`], and each operation used here states what it does to them.
use vstd::prelude::*;
use crate::color::Color;
use crate::geom::{Pos, Rect};
use crate::target::{filled, filled_from};
use grixy::buf::GridBuf;
use grixy::ops::layout::RowMajor;
use grixy::ops::{ExactSizeGrid, GridRead, GridWrite};

verus! {

#[verifier::external_type_specification]
#[verifier::external_body]
#[verifier::reject_recursive_types(T)]
#[verifier::reject_recursive_types(B)]
#[verifier::reject_recursive_types(L)]
pub struct ExGridBuf<T, B, L>(GridBuf<T, B, L>);

#[verifier::external_type_specification]
#[verifier::external_body]
pub struct ExRowMajor(RowMajor);

/// A `Vec`-backed grid of packed colors laid out row by row.
pub type PixelGrid = GridBuf<Color, Vec<Color>, RowMajor>;

/// The colors held by a grid, keyed by `(x, y)`.
pub uninterp spec fn grid_cells(g: PixelGrid) -> Map<(usize, usize), Color>;

/// The width and height of a grid.
pub uninterp spec fn grid_size(g: PixelGrid) -> (usize, usize);

/// The cells of a `width` by `height` surface.
pub open spec fn in_extent(width: usize, height: usize, x: int, y: int) -> bool {
    0 <= x < width && 0 <= y < height
}

/// Relies on grixy's `GridBuf::new`: a `width` by `height` grid whose every cell holds
/// `u32::default()`, that is 0. It allocates `width * height` elements with `vec!`, which must
/// neither overflow nor exceed `isize::MAX` bytes.
#[verifier::external_body]
pub(crate) fn grid_new(width: usize, height: usize) -> (g: PixelGrid)
    requires
        width * height * 4 <= isize::MAX,
    ensures
        grid_size(g) == (width, height),
        grid_cells(g) == Map::new(
            |k: (usize, usize)| in_extent(width, height, k.0 as int, k.1 as int),
            |k: (usize, usize)| 0u32,
        ),
{
    GridBuf::new(width, height)
}

/// Relies on grixy's `ExactSizeGrid::width` for `GridBuf`: its width.
#[verifier::external_body]
pub(crate) fn grid_width(g: &PixelGrid) -> (r: usize)
    ensures
        r == grid_size(*g).0,
{
    g.width()
}

/// Relies on grixy's `ExactSizeGrid::height` for `GridBuf`: its height.
#[verifier::external_body]
pub(crate) fn grid_height(g: &PixelGrid) -> (r: usize)
    ensures
        r == grid_size(*g).1,
{
    g.height()
}

/// Relies on grixy's `GridRead::get` for `GridBuf`: the color at `pos`, or `None` when `pos` is
/// outside the grid.
#[verifier::external_body]
pub(crate) fn grid_get(g: &PixelGrid, pos: Pos) -> (r: Option<Color>)
    ensures
        r == (if in_extent(grid_size(*g).0, grid_size(*g).1, pos.x as int, pos.y as int) {
            Some(grid_cells(*g)[(pos.x, pos.y)])
        } else {
            None
        }),
{
    g.get(grixy::core::Pos::new(pos.x, pos.y)).copied()
}

/// Relies on grixy's `GridWrite::set` for `GridBuf`: inside the grid it stores `value` at `pos`
/// and succeeds; outside it changes nothing and returns `GridError::OutOfBounds`.
#[verifier::external_body]
pub(crate) fn grid_set(g: &mut PixelGrid, pos: Pos, value: Color) -> (ok: bool)
    ensures
        grid_size(*final(g)) == grid_size(*old(g)),
        ok == in_extent(grid_size(*old(g)).0, grid_size(*old(g)).1, pos.x as int, pos.y as int),
        grid_cells(*final(g)) == (if ok {
            grid_cells(*old(g)).insert((pos.x, pos.y), value)
        } else {
            grid_cells(*old(g))
        }),
{
    g.set(grixy::core::Pos::new(pos.x, pos.y), value).is_ok()
}

/// Relies on grixy's `GridWrite::fill_rect_solid` for `GridBuf`: it trims `rect` to the grid and
/// stores `value` in every cell of what is left. `Rect::from_ltrb_unchecked` asks for the edges
/// in order, which `requires` gives.
#[verifier::external_body]
pub(crate) fn grid_fill_rect_solid(g: &mut PixelGrid, rect: Rect, value: Color)
    requires
        rect.left <= rect.right,
        rect.top <= rect.bottom,
    ensures
        grid_size(*final(g)) == grid_size(*old(g)),
        grid_cells(*final(g)) == filled(grid_cells(*old(g)), rect, value),
{
    let r = grixy::core::Rect::from_ltrb_unchecked(rect.left, rect.top, rect.right, rect.bottom);
    g.fill_rect_solid(r, value);
}

/// Relies on grixy's `GridWrite::fill_rect_iter` for `GridBuf`: for a rectangle inside the grid
/// it stores the colors, in order, in the cells of `rect` taken row by row, and stops at the end
/// of the colors or of the rectangle. `Rect::from_ltrb_unchecked` asks for the edges in order,
/// which `requires` gives.
#[verifier::external_body]
pub(crate) fn grid_fill_rect_iter(g: &mut PixelGrid, rect: Rect, colors: &[Color])
    requires
        rect.left <= rect.right <= grid_size(*old(g)).0,
        rect.top <= rect.bottom <= grid_size(*old(g)).1,
    ensures
        grid_size(*final(g)) == grid_size(*old(g)),
        grid_cells(*final(g)) == filled_from(grid_cells(*old(g)), rect, colors@),
{
    let r = grixy::core::Rect::from_ltrb_unchecked(rect.left, rect.top, rect.right, rect.bottom);
    g.fill_rect_iter(r, colors.iter().copied());
}

} // verus!
