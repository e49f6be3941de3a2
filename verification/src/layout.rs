//! Rectangles on the terminal grid.
use vstd::prelude::*;

verus! {

/// An axis-aligned rectangle of grid coordinates.
///
/// `x` and `y` name the top-left corner; the rectangle reaches over `width`
/// columns to the right and `height` rows down. The right and bottom edges are
/// exclusive, so a rectangle without width or without height holds no
/// coordinate at all.
#[derive(Clone, Copy, Debug, PartialEq, Eq, Hash, Structural)]
pub struct Rect {
    pub x: u16,
    pub y: u16,
    pub width: u16,
    pub height: u16,
}

impl Rect {
    /// The column just past the rectangle.
    pub open spec fn spec_right(self) -> int {
        self.x + self.width
    }

    /// The row just past the rectangle.
    pub open spec fn spec_bottom(self) -> int {
        self.y + self.height
    }

    /// Whether the rectangle holds no coordinate.
    pub open spec fn spec_is_empty(self) -> bool {
        self.width == 0 || self.height == 0
    }

    /// Whether `(x, y)` lies inside the rectangle.
    pub open spec fn contains(self, x: int, y: int) -> bool {
        &&& self.x <= x < self.spec_right()
        &&& self.y <= y < self.spec_bottom()
    }

    /// The coordinates inside the rectangle, as a set.
    pub open spec fn points(self) -> Set<(int, int)> {
        Set::new(|p: (int, int)| self.contains(p.0, p.1))
    }

    /// Whether every coordinate of `inner` lies inside this rectangle.
    pub open spec fn covers(self, inner: Rect) -> bool {
        forall|x: int, y: int| inner.contains(x, y) ==> self.contains(x, y)
    }

    /// Whether the right and bottom edges are themselves expressible as
    /// coordinates.
    pub open spec fn edges_fit(self) -> bool {
        &&& self.spec_right() <= u16::MAX
        &&& self.spec_bottom() <= u16::MAX
    }

    /// The rectangle with its top-left corner at `(x, y)` and the given size.
    pub fn new(x: u16, y: u16, width: u16, height: u16) -> (r: Rect)
        ensures
            r == (Rect { x, y, width, height }),
    {
        Rect { x, y, width, height }
    }

    /// The first column of the rectangle.
    pub fn left(self) -> (r: u16)
        ensures
            r == self.x,
    {
        self.x
    }

    /// The first row of the rectangle.
    pub fn top(self) -> (r: u16)
        ensures
            r == self.y,
    {
        self.y
    }

    /// The column just past the rectangle.
    pub fn right(self) -> (r: u16)
        requires
            self.spec_right() <= u16::MAX,
        ensures
            r == self.spec_right(),
    {
        self.x + self.width
    }

    /// The row just past the rectangle.
    pub fn bottom(self) -> (r: u16)
        requires
            self.spec_bottom() <= u16::MAX,
        ensures
            r == self.spec_bottom(),
    {
        self.y + self.height
    }

    /// What it takes to cover a rectangle: nothing if it is empty, and
    /// otherwise to reach at least as far as it does on each of the four sides.
    pub proof fn lemma_covers(self, inner: Rect)
        ensures
            self.covers(inner) <==> inner.is_empty() || (self.x <= inner.x && inner.spec_right()
                <= self.spec_right() && self.y <= inner.y && inner.spec_bottom()
                <= self.spec_bottom()),
    {
        if self.covers(inner) && !inner.is_empty() {
            assert(inner.contains(inner.x as int, inner.y as int));
            assert(inner.contains(inner.spec_right() - 1, inner.spec_bottom() - 1));
        }
    }

    /// Whether `(x, y)` lies inside the rectangle.
    pub fn includes(self, x: u16, y: u16) -> (r: bool)
        ensures
            r == self.contains(x as int, y as int),
    {
        self.x <= x && x - self.x < self.width && self.y <= y && y - self.y < self.height
    }

    /// Whether every coordinate of `inner` lies inside this rectangle.
    pub fn encloses(self, inner: Rect) -> (r: bool)
        ensures
            r == self.covers(inner),
    {
        proof {
            self.lemma_covers(inner);
        }
        inner.is_empty() || (self.x <= inner.x && inner.x as u32 + inner.width as u32 <= self.x as u32
            + self.width as u32 && self.y <= inner.y && inner.y as u32 + inner.height as u32
            <= self.y as u32 + self.height as u32)
    }

    /// Whether the rectangle holds no coordinate.
    #[verifier::when_used_as_spec(spec_is_empty)]
    pub fn is_empty(self) -> (r: bool)
        ensures
            r == self.spec_is_empty(),
    {
        self.width == 0 || self.height == 0
    }
}

} // verus!
