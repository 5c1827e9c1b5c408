//! Copying a rectangle of one surface onto another.
use vstd::prelude::*;
use crate::buffer::Framebuffer;
use crate::color::Color;
use crate::geom::{Pos, Rect};
use crate::target::{before, drawn, DrawTarget};

verus! {

/// The source cell that the destination cell `k` receives when `src_rect` is copied to
/// `dst_pos`: `k - dst_pos + src_rect`'s top-left corner.
pub open spec fn source_of(k: (usize, usize), src_rect: Rect, dst_pos: Pos) -> (int, int) {
    (k.0 - dst_pos.x + src_rect.left, k.1 - dst_pos.y + src_rect.top)
}

/// Whether destination cell `k` receives a color: its source cell lies in `src_rect`, is
/// readable in `source`, and, for a copy in progress, comes before `(cx, cy)` in row-major order.
pub open spec fn receives_before(
    source: Map<(usize, usize), Color>,
    src_rect: Rect,
    dst_pos: Pos,
    k: (usize, usize),
    cx: int,
    cy: int,
) -> bool {
    let s = source_of(k, src_rect, dst_pos);
    k.0 >= dst_pos.x && k.1 >= dst_pos.y && src_rect.contains(s.0, s.1) && source.dom().contains(
        (s.0 as usize, s.1 as usize),
    ) && before(s.0, s.1, cx, cy)
}

/// The cells after the part of a copy that precedes source position `(cx, cy)`.
pub open spec fn copied_before(
    cells: Map<(usize, usize), Color>,
    source: Map<(usize, usize), Color>,
    src_rect: Rect,
    dst_pos: Pos,
    cx: int,
    cy: int,
) -> Map<(usize, usize), Color> {
    Map::new(
        |k: (usize, usize)| cells.dom().contains(k),
        |k: (usize, usize)|
            if receives_before(source, src_rect, dst_pos, k, cx, cy) {
                let s = source_of(k, src_rect, dst_pos);
                source[(s.0 as usize, s.1 as usize)]
            } else {
                cells[k]
            },
    )
}

/// The cells after copying `src_rect` of `source` to `dst_pos`: an addressable cell whose source
/// cell lies in `src_rect` and is readable takes that cell's color; every other cell keeps its
/// color.
pub open spec fn copied(
    cells: Map<(usize, usize), Color>,
    source: Map<(usize, usize), Color>,
    src_rect: Rect,
    dst_pos: Pos,
) -> Map<(usize, usize), Color> {
    Map::new(
        |k: (usize, usize)| cells.dom().contains(k),
        |k: (usize, usize)|
            {
                let s = source_of(k, src_rect, dst_pos);
                if k.0 >= dst_pos.x && k.1 >= dst_pos.y && src_rect.contains(s.0, s.1)
                    && source.dom().contains((s.0 as usize, s.1 as usize)) {
                    source[(s.0 as usize, s.1 as usize)]
                } else {
                    cells[k]
                }
            },
    )
}

/// After a copy, the destination cell of a source position `(px, py)` of `src_rect`, at
/// `dst_pos + (px, py) - src_rect`'s top-left corner, holds the source's color there when the
/// source can be read at that position, and is unchanged when it cannot.
pub proof fn lemma_copy_cell(
    cells: Map<(usize, usize), Color>,
    source: Map<(usize, usize), Color>,
    src_rect: Rect,
    dst_pos: Pos,
    px: usize,
    py: usize,
    k: (usize, usize),
)
    requires
        src_rect.contains(px as int, py as int),
        k.0 == dst_pos.x + (px - src_rect.left),
        k.1 == dst_pos.y + (py - src_rect.top),
        cells.dom().contains(k),
    ensures
        copied(cells, source, src_rect, dst_pos).dom().contains(k),
        copied(cells, source, src_rect, dst_pos)[k] == (if source.dom().contains((px, py)) {
            source[(px, py)]
        } else {
            cells[k]
        }),
{
    assert(source_of(k, src_rect, dst_pos) == (px as int, py as int));
}

/// Copies `src_rect` of `source` onto `target`, its top-left corner at `dst_pos`, in row-major
/// order and stopping at the first error. A source position that cannot be read skips its
/// destination write, and destinations outside `target` are skipped as drawing always does, so
/// surfaces of different sizes need no clipping beforehand.
pub fn copy_rect<T: DrawTarget>(target: &mut T, source: &Framebuffer, src_rect: Rect, dst_pos: Pos) -> (r:
    Result<(), T::Error>)
    requires
        old(target).inv(),
        source.inv(),
    ensures
        final(target).inv(),
        final(target).size() == old(target).size(),
        T::infallible() ==> r is Ok,
        src_rect.left >= src_rect.right || src_rect.top >= src_rect.bottom ==> r is Ok,
        r is Ok ==> final(target).cells() == copied(
            old(target).cells(),
            source.cells(),
            src_rect,
            dst_pos,
        ),
{
    let ghost cells0 = target.cells();
    let ghost src = source.cells();
    let mut y: usize = src_rect.top;
    while y < src_rect.bottom
        invariant
            target.inv(),
            target.size() == old(target).size(),
            source.inv(),
            src == source.cells(),
            src_rect.top <= y,
            y <= src_rect.bottom || y == src_rect.top,
            target.cells() == copied_before(
                cells0,
                src,
                src_rect,
                dst_pos,
                src_rect.left as int,
                y as int,
            ),
        decreases src_rect.bottom - y,
    {
        let mut x: usize = src_rect.left;
        while x < src_rect.right
            invariant
                target.inv(),
                target.size() == old(target).size(),
                source.inv(),
                src == source.cells(),
                src_rect.top <= y < src_rect.bottom,
                src_rect.left <= x,
                x <= src_rect.right || x == src_rect.left,
                target.cells() == copied_before(cells0, src, src_rect, dst_pos, x as int, y as int),
            decreases src_rect.right - x,
        {
            let ghost cur = target.cells();
            if let Some(color) = source.get(Pos { x, y }) {
                let dx = dst_pos.x.checked_add(x - src_rect.left);
                let dy = dst_pos.y.checked_add(y - src_rect.top);
                if let (Some(dx), Some(dy)) = (dx, dy) {
                    match target.draw_pixel(Pos { x: dx, y: dy }, color) {
                        Ok(()) => {},
                        Err(e) => {
                            return Err(e);
                        },
                    }
                    assert(target.cells() == drawn(cur, Pos { x: dx, y: dy }, color));
                }
            }
            x = x + 1;
            assert(target.cells() =~= copied_before(
                cells0,
                src,
                src_rect,
                dst_pos,
                x as int,
                y as int,
            ));
        }
        y = y + 1;
        assert(target.cells() =~= copied_before(
            cells0,
            src,
            src_rect,
            dst_pos,
            src_rect.left as int,
            y as int,
        ));
    }
    assert(target.cells() =~= copied(cells0, src, src_rect, dst_pos));
    Ok(())
}

} // verus!
