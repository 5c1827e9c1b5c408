//! Defines a target for drawing pixels on a 2D surface.
//!
//! A target is modelled by the map of its addressable cells, keyed by `(x, y)`. Drawing outside
//! that map is not an error: the write is skipped.
use vstd::prelude::*;
use crate::color::Color;
use crate::geom::{Pos, Rect};

verus! {

/// The cells after drawing `color` at `pos`: the cell changes when `pos` is addressable, and
/// nothing changes otherwise.
pub open spec fn drawn(cells: Map<(usize, usize), Color>, pos: Pos, color: Color) -> Map<
    (usize, usize),
    Color,
> {
    if cells.dom().contains((pos.x, pos.y)) {
        cells.insert((pos.x, pos.y), color)
    } else {
        cells
    }
}

/// Whether `(x, y)` comes before `(cx, cy)` in row-major order (rows outer, columns inner).
pub open spec fn before(x: int, y: int, cx: int, cy: int) -> bool {
    y < cy || (y == cy && x < cx)
}

/// The cells after filling the positions of `rect` that come before `(cx, cy)` with `color`.
pub open spec fn filled_before(
    cells: Map<(usize, usize), Color>,
    rect: Rect,
    color: Color,
    cx: int,
    cy: int,
) -> Map<(usize, usize), Color> {
    Map::new(
        |k: (usize, usize)| cells.dom().contains(k),
        |k: (usize, usize)|
            if rect.contains(k.0 as int, k.1 as int) && before(k.0 as int, k.1 as int, cx, cy) {
                color
            } else {
                cells[k]
            },
    )
}

/// The cells after filling `rect` with `color`: every addressable cell of `rect` holds `color`,
/// every other cell keeps its color.
pub open spec fn filled(cells: Map<(usize, usize), Color>, rect: Rect, color: Color) -> Map<
    (usize, usize),
    Color,
> {
    Map::new(
        |k: (usize, usize)| cells.dom().contains(k),
        |k: (usize, usize)| if rect.contains(k.0 as int, k.1 as int) { color } else { cells[k] },
    )
}

/// The cells after pairing the positions of `rect` that come before `(cx, cy)`, in row-major
/// order, with `colors`: a position whose row-major index has a color gets it.
pub open spec fn filled_from_before(
    cells: Map<(usize, usize), Color>,
    rect: Rect,
    colors: Seq<Color>,
    cx: int,
    cy: int,
) -> Map<(usize, usize), Color> {
    Map::new(
        |k: (usize, usize)| cells.dom().contains(k),
        |k: (usize, usize)|
            if rect.contains(k.0 as int, k.1 as int) && before(k.0 as int, k.1 as int, cx, cy)
                && rect.row_major_index(k.0 as int, k.1 as int) < colors.len() {
                colors[rect.row_major_index(k.0 as int, k.1 as int)]
            } else {
                cells[k]
            },
    )
}

/// The cells after pairing the positions of `rect`, in row-major order, with `colors`: the
/// addressable position of row-major index `i` holds `colors[i]` when `i < colors.len()`;
/// positions past the end of `colors`, and all cells outside `rect`, keep their colors.
pub open spec fn filled_from(cells: Map<(usize, usize), Color>, rect: Rect, colors: Seq<Color>) -> Map<
    (usize, usize),
    Color,
> {
    Map::new(
        |k: (usize, usize)| cells.dom().contains(k),
        |k: (usize, usize)|
            if rect.contains(k.0 as int, k.1 as int) && rect.row_major_index(k.0 as int, k.1 as int)
                < colors.len() {
                colors[rect.row_major_index(k.0 as int, k.1 as int)]
            } else {
                cells[k]
            },
    )
}

/// A position of `rect` at or after `(cx, cy)` in row-major order has a row-major index at
/// least that of `(cx, cy)`.
proof fn lemma_index_monotone(rect: Rect, x: int, y: int, cx: int, cy: int)
    requires
        rect.contains(x, y),
        rect.left <= cx <= rect.right,
        rect.top <= cy,
        !before(x, y, cx, cy),
    ensures
        rect.row_major_index(x, y) >= rect.row_major_index(cx, cy),
{
    let w = rect.width_spec();
    if y > cy {
        assert((y - rect.top) * w >= (cy - rect.top + 1) * w) by (nonlinear_arith)
            requires
                y - rect.top >= cy - rect.top + 1,
                w >= 0,
        ;
        assert((cy - rect.top + 1) * w == (cy - rect.top) * w + w) by (nonlinear_arith);
    }
}

/// Drawing a color at an addressable position and then reading that position gives the color
/// back.
pub proof fn lemma_draw_then_read(cells: Map<(usize, usize), Color>, pos: Pos, color: Color)
    requires
        cells.dom().contains((pos.x, pos.y)),
    ensures
        drawn(cells, pos, color).dom().contains((pos.x, pos.y)),
        drawn(cells, pos, color)[(pos.x, pos.y)] == color,
{
}

/// Drawing at a position outside the target changes no cell.
pub proof fn lemma_draw_outside_is_noop(cells: Map<(usize, usize), Color>, pos: Pos, color: Color)
    requires
        !cells.dom().contains((pos.x, pos.y)),
    ensures
        drawn(cells, pos, color) == cells,
{
}

/// Filling a rectangle sets exactly the addressable cells of the rectangle to the color and
/// leaves every other cell as it was; for a rectangle inside the target, every one of its
/// positions is such a cell.
pub proof fn lemma_fill_sets_exactly_rect(
    cells: Map<(usize, usize), Color>,
    rect: Rect,
    color: Color,
    k: (usize, usize),
)
    ensures
        filled(cells, rect, color).dom() == cells.dom(),
        cells.dom().contains(k) && rect.contains(k.0 as int, k.1 as int) ==> filled(
            cells,
            rect,
            color,
        )[k] == color,
        cells.dom().contains(k) && !rect.contains(k.0 as int, k.1 as int) ==> filled(
            cells,
            rect,
            color,
        )[k] == cells[k],
{
    assert(filled(cells, rect, color).dom() =~= cells.dom());
}

/// The cells of row `y` from column `left` up to, not including, column `right`.
pub open spec fn row_cells(left: usize, right: usize, y: usize) -> Set<(usize, usize)> {
    Set::new(|k: (usize, usize)| left <= k.0 < right && k.1 == y)
}

/// The cells of `rect` from row `rect.top` up to, not including, row `bottom`.
pub open spec fn rows_cells(rect: Rect, bottom: usize) -> Set<(usize, usize)> {
    Set::new(
        |k: (usize, usize)| rect.left <= k.0 < rect.right && rect.top <= k.1 < bottom,
    )
}

proof fn lemma_row_cells_len(left: usize, right: usize, y: usize)
    requires
        left <= right,
    ensures
        row_cells(left, right, y).finite(),
        row_cells(left, right, y).len() == right - left,
    decreases right - left,
{
    if right == left {
        assert(row_cells(left, right, y) =~= Set::empty());
    } else {
        let r1 = (right - 1) as usize;
        lemma_row_cells_len(left, r1, y);
        assert(row_cells(left, right, y) =~= row_cells(left, r1, y).insert((r1, y)));
    }
}

proof fn lemma_rows_cells_len(rect: Rect, bottom: usize)
    requires
        rect.left <= rect.right,
        rect.top <= bottom,
    ensures
        rows_cells(rect, bottom).finite(),
        rows_cells(rect, bottom).len() == (rect.right - rect.left) * (bottom - rect.top),
    decreases bottom - rect.top,
{
    let w = rect.right - rect.left;
    if bottom == rect.top {
        assert(rows_cells(rect, bottom) =~= Set::empty());
    } else {
        let b1 = (bottom - 1) as usize;
        lemma_rows_cells_len(rect, b1);
        lemma_row_cells_len(rect.left, rect.right, b1);
        let upper = rows_cells(rect, b1);
        let last = row_cells(rect.left, rect.right, b1);
        assert(rows_cells(rect, bottom) =~= upper + last);
        assert(upper.disjoint(last));
        vstd::set_lib::lemma_set_disjoint_lens(upper, last);
        assert(w * (b1 - rect.top) + w == w * (bottom - rect.top)) by (nonlinear_arith)
            requires
                b1 + 1 == bottom,
        ;
    }
}

/// An `M` by `N` rectangle inside the target covers exactly `M * N` addressable cells, the ones
/// that filling it sets.
pub proof fn lemma_fill_count(cells: Map<(usize, usize), Color>, rect: Rect)
    requires
        rect.left <= rect.right,
        rect.top <= rect.bottom,
        forall|x: usize, y: usize|
            rect.contains(x as int, y as int) ==> #[trigger] cells.dom().contains((x, y)),
    ensures
        Set::new(
            |k: (usize, usize)| cells.dom().contains(k) && rect.contains(k.0 as int, k.1 as int),
        ).finite(),
        Set::new(
            |k: (usize, usize)| cells.dom().contains(k) && rect.contains(k.0 as int, k.1 as int),
        ).len() == rect.width_spec() * rect.height_spec(),
{
    lemma_rows_cells_len(rect, rect.bottom);
    assert(Set::new(
        |k: (usize, usize)| cells.dom().contains(k) && rect.contains(k.0 as int, k.1 as int),
    ) =~= rows_cells(rect, rect.bottom));
}

/// The row-major index of a position of `rect` is below the rectangle's cell count.
proof fn lemma_index_below_count(rect: Rect, x: int, y: int)
    requires
        rect.contains(x, y),
    ensures
        0 <= rect.row_major_index(x, y) < rect.width_spec() * rect.height_spec(),
{
    let w = rect.width_spec();
    let h = rect.height_spec();
    let dy = y - rect.top;
    let dx = x - rect.left;
    assert(0 <= dy * w + dx < h * w) by (nonlinear_arith)
        requires
            0 <= dy < h,
            0 <= dx < w,
    ;
    assert(w * h == h * w) by (nonlinear_arith);
}

/// Pairing a rectangle with too few colors leaves the positions past the last color as they
/// were; pairing it with too many ignores the excess, as if the colors stopped at the
/// rectangle's cell count.
pub proof fn lemma_paired_fill_length(
    cells: Map<(usize, usize), Color>,
    rect: Rect,
    colors: Seq<Color>,
    k: (usize, usize),
)
    ensures
        cells.dom().contains(k) && rect.contains(k.0 as int, k.1 as int)
            && rect.row_major_index(k.0 as int, k.1 as int) >= colors.len() ==> filled_from(
            cells,
            rect,
            colors,
        )[k] == cells[k],
        colors.len() >= rect.width_spec() * rect.height_spec() ==> filled_from(cells, rect, colors)
            == filled_from(cells, rect, colors.take(rect.width_spec() * rect.height_spec())),
{
    let count = rect.width_spec() * rect.height_spec();
    if colors.len() >= count {
        assert forall|j: (usize, usize)| #[trigger]
            cells.dom().contains(j) && rect.contains(j.0 as int, j.1 as int) implies rect.row_major_index(
            j.0 as int,
            j.1 as int,
        ) < count by {
            lemma_index_below_count(rect, j.0 as int, j.1 as int);
        }
        assert(filled_from(cells, rect, colors) =~= filled_from(cells, rect, colors.take(count)));
    }
}

/// A surface that pixels can be drawn on.
///
/// The one required operation is [`DrawTarget::draw_pixel`]; the rectangle operations are built
/// from it and may be overridden, for speed, by implementations that keep their contracts.
pub trait DrawTarget: Sized {
    /// Errors of a target whose backing resource can fail, such as a detached device.
    ///
    /// A position out of bounds is never an error.
    type Error;

    /// The colors of the addressable cells, keyed by `(x, y)`.
    spec fn cells(&self) -> Map<(usize, usize), Color>;

    /// The width and height of the target; no drawing operation changes them.
    spec fn size(&self) -> (usize, usize);

    /// The target's internal consistency, kept by every operation.
    spec fn inv(&self) -> bool;

    /// Whether drawing on targets of this type always succeeds.
    spec fn infallible() -> bool;

    /// Draws `color` at `pos`; a position outside the target is skipped and is no error.
    fn draw_pixel(&mut self, pos: Pos, color: Color) -> (r: Result<(), Self::Error>)
        requires
            old(self).inv(),
        ensures
            final(self).inv(),
            final(self).size() == old(self).size(),
            Self::infallible() ==> r is Ok,
            r is Ok ==> final(self).cells() == drawn(old(self).cells(), pos, color),
    ;

    /// Fills `rect` with `color`, one pixel at a time in row-major order, stopping at the first
    /// error; positions outside the target are skipped.
    fn fill_rect(&mut self, rect: Rect, color: Color) -> (r: Result<(), Self::Error>)
        requires
            old(self).inv(),
        ensures
            final(self).inv(),
            final(self).size() == old(self).size(),
            Self::infallible() ==> r is Ok,
            rect.left >= rect.right || rect.top >= rect.bottom ==> r is Ok,
            r is Ok ==> final(self).cells() == filled(old(self).cells(), rect, color),
    {
        let ghost cells0 = self.cells();
        let mut y: usize = rect.top;
        while y < rect.bottom
            invariant
                self.inv(),
                self.size() == old(self).size(),
                rect.top <= y,
                y <= rect.bottom || y == rect.top,
                self.cells() == filled_before(cells0, rect, color, rect.left as int, y as int),
            decreases rect.bottom - y,
        {
            let mut x: usize = rect.left;
            while x < rect.right
                invariant
                    self.inv(),
                    self.size() == old(self).size(),
                    rect.top <= y < rect.bottom,
                    rect.left <= x,
                    x <= rect.right || x == rect.left,
                    self.cells() == filled_before(cells0, rect, color, x as int, y as int),
                decreases rect.right - x,
            {
                match self.draw_pixel(Pos { x, y }, color) {
                    Ok(()) => {},
                    Err(e) => {
                        return Err(e);
                    },
                }
                x = x + 1;
                assert(self.cells() =~= filled_before(cells0, rect, color, x as int, y as int));
            }
            y = y + 1;
            assert(self.cells() =~= filled_before(cells0, rect, color, rect.left as int, y as int));
        }
        assert(self.cells() =~= filled(cells0, rect, color));
        Ok(())
    }

    /// Pairs the positions of `rect`, in row-major order, with `colors` and draws each pair,
    /// stopping when the colors run out or at the first error; positions outside the target are
    /// skipped, and colors beyond the rectangle's cell count are ignored.
    fn fill_rect_iter(&mut self, rect: Rect, colors: &[Color]) -> (r: Result<(), Self::Error>)
        requires
            old(self).inv(),
        ensures
            final(self).inv(),
            final(self).size() == old(self).size(),
            Self::infallible() ==> r is Ok,
            rect.left >= rect.right || rect.top >= rect.bottom || colors@.len() == 0 ==> r is Ok,
            r is Ok ==> final(self).cells() == filled_from(old(self).cells(), rect, colors@),
    {
        self.draw_paired(rect, colors)
    }

    /// Pairs the positions of `rect`, in row-major order, with `colors` and draws each pair with
    /// [`DrawTarget::draw_pixel`], stopping when the colors run out or at the first error. This is
    /// what [`DrawTarget::fill_rect_iter`] does by default, kept apart so that an implementation
    /// that overrides it for some rectangles can fall back to it for the others.
    fn draw_paired(&mut self, rect: Rect, colors: &[Color]) -> (r: Result<(), Self::Error>)
        requires
            old(self).inv(),
        ensures
            final(self).inv(),
            final(self).size() == old(self).size(),
            Self::infallible() ==> r is Ok,
            rect.left >= rect.right || rect.top >= rect.bottom || colors@.len() == 0 ==> r is Ok,
            r is Ok ==> final(self).cells() == filled_from(old(self).cells(), rect, colors@),
    {
        let ghost cells0 = self.cells();
        let mut n: usize = 0;
        let mut y: usize = rect.top;
        // The row-major cursor: every position of `rect` before it has been paired.
        let ghost mut cx: int = rect.left as int;
        let ghost mut cy: int = rect.top as int;
        while y < rect.bottom && n < colors.len()
            invariant
                self.inv(),
                self.size() == old(self).size(),
                rect.top <= y,
                y <= rect.bottom || y == rect.top,
                n <= colors@.len(),
                (cx == rect.left && cy == y) || (n == colors@.len() && rect.left <= cx
                    <= rect.right && rect.top <= cy),
                n == rect.row_major_index(cx, cy),
                self.cells() == filled_from_before(cells0, rect, colors@, cx, cy),
            decreases rect.bottom - y, colors@.len() - n,
        {
            let ghost n0 = n;
            let mut x: usize = rect.left;
            while x < rect.right && n < colors.len()
                invariant
                    self.inv(),
                    self.size() == old(self).size(),
                    rect.top <= y < rect.bottom,
                    rect.left <= x,
                    x <= rect.right || x == rect.left,
                    n0 <= n <= colors@.len(),
                    n - n0 == x - rect.left,
                    cy == y,
                    cx == x,
                    n == rect.row_major_index(cx, cy),
                    self.cells() == filled_from_before(cells0, rect, colors@, cx, cy),
                decreases rect.right - x,
            {
                match self.draw_pixel(Pos { x, y }, colors[n]) {
                    Ok(()) => {},
                    Err(e) => {
                        return Err(e);
                    },
                }
                x = x + 1;
                n = n + 1;
                proof {
                    cx = x as int;
                }
                assert(self.cells() =~= filled_from_before(cells0, rect, colors@, cx, cy));
            }
            if x >= rect.right {
                let ghost w = rect.width_spec();
                assert((y + 1 - rect.top) * w == (y - rect.top) * w + w) by (nonlinear_arith);
                y = y + 1;
                proof {
                    cx = rect.left as int;
                    cy = y as int;
                }
                assert(self.cells() =~= filled_from_before(cells0, rect, colors@, cx, cy));
            }
        }
        assert(self.cells() =~= filled_from(cells0, rect, colors@)) by {
            assert forall|k: (usize, usize)|
                #![trigger self.cells()[k]]
                cells0.dom().contains(k) && rect.contains(k.0 as int, k.1 as int)
                && rect.row_major_index(k.0 as int, k.1 as int) < colors@.len() implies before(
                k.0 as int,
                k.1 as int,
                cx,
                cy,
            ) by {
                if !before(k.0 as int, k.1 as int, cx, cy) && n == colors@.len() {
                    lemma_index_monotone(rect, k.0 as int, k.1 as int, cx, cy);
                }
            }
        }
        Ok(())
    }
}

} // verus!
