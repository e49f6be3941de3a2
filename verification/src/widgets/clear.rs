//! The widget that wipes a rectangle.
use vstd::prelude::*;
use crate::buffer::{Buffer, Cell, Grid};
use crate::layout::Rect;
use crate::widgets::Widget;

verus! {

/// A widget that wipes its area, so that whatever was drawn there before does
/// not show through what is drawn next (a popup, say).
#[derive(Debug, Eq, PartialEq, Hash, Structural)]
pub struct Clear;

impl Default for Clear {
    fn default() -> (r: Clear)
        ensures
            r == Clear,
    {
        Clear
    }
}

impl Clone for Clear {
    fn clone(&self) -> (r: Clear)
        ensures
            r == *self,
    {
        Clear
    }
}

/// `grid` after every cell of it inside `area` has been wiped: those cells are
/// blank, all others are as they were, and the extent is the same.
pub open spec fn cleared(grid: Grid, area: Rect) -> Grid {
    Grid {
        area: grid.area,
        cells: Map::new(
            |p: (int, int)| grid.cells.dom().contains(p),
            |p: (int, int)|
                if area.contains(p.0, p.1) {
                    Cell::blank()
                } else {
                    grid.cells[p]
                },
        ),
    }
}

impl Widget for Clear {
    /// Wipes every cell of `buf` inside `area`.
    fn render(self, area: Rect, buf: &mut Buffer)
        ensures
            final(buf)@ == cleared(old(buf)@, area),
            forall|x: int, y: int|
                #![trigger final(buf)@.at(x, y)]
                area.contains(x, y) ==> final(buf)@.at(x, y) == Cell::blank(),
            area.is_empty() ==> final(buf)@ == old(buf)@,
    {
        let ghost before = buf@;
        proof {
            use_type_invariant(&*buf);
            buf.lemma_inv_view();
            if area.is_empty() {
                assert(before.cells =~= cleared(before, area).cells);
            }
        }
        if area.is_empty() {
            return;
        }
        proof {
            assert(area.contains(area.spec_right() - 1, area.spec_bottom() - 1));
        }
        let (left, right) = (area.left(), area.right());
        let (top, bottom) = (area.top(), area.bottom());
        for x in left..right
            invariant
                before.wf(),
                before.area.covers(area),
                left == area.x,
                right == area.spec_right(),
                top == area.y,
                bottom == area.spec_bottom(),
                buf@.area == before.area,
                buf@.cells.dom() == before.cells.dom(),
                forall|p: (int, int)| #[trigger]
                    before.cells.dom().contains(p) ==> buf@.cells[p] == if area.contains(p.0, p.1)
                        && p.0 < x {
                        Cell::blank()
                    } else {
                        before.cells[p]
                    },
        {
            for y in top..bottom
                invariant
                    before.wf(),
                    before.area.covers(area),
                    top == area.y,
                    bottom == area.spec_bottom(),
                    area.x <= x < area.spec_right(),
                    buf@.area == before.area,
                    buf@.cells.dom() == before.cells.dom(),
                    forall|p: (int, int)| #[trigger]
                        before.cells.dom().contains(p) ==> buf@.cells[p] == if area.contains(
                            p.0,
                            p.1,
                        ) && (p.0 < x || (p.0 == x && p.1 < y)) {
                            Cell::blank()
                        } else {
                            before.cells[p]
                        },
            {
                buf.get_mut(x, y).reset();
            }
        }
        assert(buf@.cells =~= cleared(before, area).cells);
    }
}

/// Wiping an area a second time changes nothing: the grid is then as it was
/// after the first time.
pub proof fn lemma_clear_idempotent(grid: Grid, area: Rect)
    ensures
        cleared(cleared(grid, area), area) == cleared(grid, area),
{
    assert(cleared(cleared(grid, area), area).cells =~= cleared(grid, area).cells);
}

} // verus!
