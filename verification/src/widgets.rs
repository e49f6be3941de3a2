//! Widgets: things that draw themselves into a rectangle of a buffer.
use vstd::prelude::*;
use crate::buffer::{Buffer, Grid};
use crate::layout::Rect;

pub mod clear;

pub use clear::Clear;

verus! {

/// Whether `after` has the extent of `before` and shows the same cell as
/// `before` at every coordinate that is not inside `area`.
pub open spec fn same_outside(before: Grid, after: Grid, area: Rect) -> bool {
    &&& after.area == before.area
    &&& forall|x: int, y: int|
        #![trigger after.at(x, y)]
        before.area.contains(x, y) && !area.contains(x, y) ==> after.at(x, y) == before.at(x, y)
}

/// Something that can be drawn.
///
/// A widget is used up by drawing it. It may change the cells inside the
/// rectangle it is given and no others, and the caller has to hand it a
/// rectangle that lies within the buffer.
pub trait Widget {
    /// Draws the widget into `area` of `buf`.
    fn render(self, area: Rect, buf: &mut Buffer)
        requires
            old(buf)@.area.covers(area),
        ensures
            same_outside(old(buf)@, final(buf)@, area),
    ;
}

} // verus!
