//! The cell grid.
use vstd::arithmetic::div_mod::{
    lemma_fundamental_div_mod, lemma_mod_pos_bound, lemma_multiply_divide_lt,
};
use vstd::prelude::*;
use vstd::std_specs::cmp::PartialEqSpecImpl;
use vstd::string::StrSliceExecFns;
use crate::layout::Rect;
use crate::style::Style;

verus! {

/// One position of the grid: the symbol shown there and its style.
#[derive(Clone, Copy, Debug, PartialEq, Eq, Hash, Structural)]
pub struct Cell {
    pub symbol: char,
    pub style: Style,
}

impl Cell {
    /// The cell nobody has drawn on: a space in the plain style.
    pub open spec fn blank() -> Cell {
        Cell { symbol: ' ', style: Style::plain() }
    }

    /// The cell that shows `symbol` in the plain style.
    pub open spec fn plain(symbol: char) -> Cell {
        Cell { symbol, style: Style::plain() }
    }

    /// A cell showing `symbol` in `style`.
    pub fn new(symbol: char, style: Style) -> (r: Cell)
        ensures
            r == (Cell { symbol, style }),
    {
        Cell { symbol, style }
    }

    /// Wipes the cell: whatever it showed, it is blank afterwards.
    pub fn reset(&mut self)
        ensures
            *final(self) == Cell::blank(),
    {
        self.symbol = ' ';
        self.style = Style::default();
    }
}

impl Default for Cell {
    /// The blank cell.
    fn default() -> (r: Cell)
        ensures
            r == Cell::blank(),
    {
        Cell { symbol: ' ', style: Style::default() }
    }
}

/// What a buffer is, mathematically: an extent and one cell for every
/// coordinate of it.
#[verifier::ext_equal]
pub struct Grid {
    pub area: Rect,
    pub cells: Map<(int, int), Cell>,
}

impl Grid {
    /// The cells are exactly those of the extent.
    pub open spec fn wf(self) -> bool {
        self.cells.dom() == self.area.points()
    }

    /// The cell at `(x, y)`.
    pub open spec fn at(self, x: int, y: int) -> Cell {
        self.cells[(x, y)]
    }

    /// The same grid with `cell` at `(x, y)`.
    pub open spec fn put(self, x: int, y: int, cell: Cell) -> Grid {
        Grid { area: self.area, cells: self.cells.insert((x, y), cell) }
    }

    /// The extent of the grid that shows the given lines of text, one line per
    /// row: its top-left corner is the origin, the first line gives the width
    /// and the number of lines the height.
    pub open spec fn lines_area(lines: Seq<&str>) -> Rect {
        Rect {
            x: 0,
            y: 0,
            width: if lines.len() == 0 {
                0
            } else {
                lines[0]@.len() as u16
            },
            height: lines.len() as u16,
        }
    }

    /// The grid whose rows show the given lines of text, one character per
    /// cell in the plain style.
    pub open spec fn of_lines(lines: Seq<&str>) -> Grid {
        Grid {
            area: Grid::lines_area(lines),
            cells: Map::new(
                |p: (int, int)| Grid::lines_area(lines).contains(p.0, p.1),
                |p: (int, int)| Cell::plain(lines[p.1]@[p.0]),
            ),
        }
    }

    /// The grid over `area` that shows `cell` everywhere.
    pub open spec fn uniform(area: Rect, cell: Cell) -> Grid {
        Grid { area, cells: Map::new(|p: (int, int)| area.contains(p.0, p.1), |p: (int, int)| cell) }
    }

    /// Two grids are the same exactly when they have the same extent and show
    /// the same cell at every coordinate of it. So grids that differ in a
    /// single cell, in its symbol or in its style, are different grids.
    pub proof fn lemma_equal(self, other: Grid)
        requires
            self.wf(),
            other.wf(),
        ensures
            self == other <==> (self.area == other.area && forall|x: int, y: int|
                self.area.contains(x, y) ==> self.at(x, y) == other.at(x, y)),
    {
        if self.area == other.area && (forall|x: int, y: int|
            self.area.contains(x, y) ==> self.at(x, y) == other.at(x, y)) {
            assert forall|p: (int, int)| self.cells.dom().contains(p) implies self.cells[p]
                == other.cells[p] by {
                assert(self.at(p.0, p.1) == other.at(p.0, p.1));
            }
            assert(self.cells =~= other.cells);
        }
    }
}

/// Whether `lines` can be the rows of a buffer: they all have the same number
/// of characters, and neither that number nor the number of lines is more
/// than a coordinate can express.
pub open spec fn rows_fit(lines: Seq<&str>) -> bool {
    &&& lines.len() <= u16::MAX
    &&& forall|i: int| 0 <= i < lines.len() ==> #[trigger] lines[i]@.len() == lines[0]@.len()
    &&& lines.len() > 0 ==> lines[0]@.len() <= u16::MAX
}

/// A rectangular grid of cells, addressed by absolute coordinates.
///
/// The cells are kept row by row in one vector.
#[derive(Debug)]
pub struct Buffer {
    area: Rect,
    content: Vec<Cell>,
}

impl View for Buffer {
    type V = Grid;

    closed spec fn view(&self) -> Grid {
        Grid {
            area: self.area,
            cells: Map::new(
                |p: (int, int)| self.area.contains(p.0, p.1),
                |p: (int, int)| self.content@[offset(self.area, p.0, p.1)],
            ),
        }
    }
}

impl Buffer {
    /// What every buffer keeps to: one stored cell per coordinate of its
    /// extent, and an extent whose far edges are coordinates themselves.
    #[verifier::type_invariant]
    pub closed spec fn inv(self) -> bool {
        &&& self.area.edges_fit()
        &&& self.content@.len() == self.area.width * self.area.height
    }

    /// What the invariant means for the buffer's view.
    pub proof fn lemma_inv_view(self)
        requires
            self.inv(),
        ensures
            self@.wf(),
            self@.area.edges_fit(),
    {
    }

    /// A buffer over `area` that shows `cell` everywhere.
    pub fn filled(area: Rect, cell: Cell) -> (r: Buffer)
        requires
            area.edges_fit(),
        ensures
            r@ == Grid::uniform(area, cell),
    {
        assert(area.width * area.height <= 0xffff * 0xffff) by (nonlinear_arith);
        let size: usize = (area.width as usize) * (area.height as usize);
        let content = vec![cell; size];
        let r = Buffer { area, content };
        assert(r@.cells =~= Grid::uniform(area, cell).cells) by {
            assert forall|p: (int, int)| area.contains(p.0, p.1) implies 0 <= offset(
                area,
                p.0,
                p.1,
            ) < size by {
                lemma_offset_in_range(area, p.0, p.1);
            }
        }
        r
    }

    /// A buffer over `area` in which every cell is blank.
    pub fn empty(area: Rect) -> (r: Buffer)
        requires
            area.edges_fit(),
        ensures
            r@ == Grid::uniform(area, Cell::blank()),
    {
        Buffer::filled(area, Cell::default())
    }

    /// A buffer that shows the given lines of text, one line per row and one
    /// character per cell, in the plain style.
    ///
    /// The lines must all have the same number of characters; that number is
    /// the width of the buffer, and the number of lines is its height.
    pub fn with_lines(lines: Vec<&str>) -> (r: Buffer)
        requires
            rows_fit(lines@),
        ensures
            r@ == Grid::of_lines(lines@),
    {
        let height: u16 = lines.len() as u16;
        let width: u16 = if lines.len() == 0 {
            0
        } else {
            lines[0].unicode_len() as u16
        };
        let area = Rect::new(0, 0, width, height);
        let ghost grid = Grid::of_lines(lines@);
        let mut buf = Buffer::empty(area);
        for y in 0..height
            invariant
                rows_fit(lines@),
                height == lines@.len(),
                area == grid.area,
                grid == Grid::of_lines(lines@),
                buf@.area == area,
                buf@.cells.dom() == area.points(),
                forall|p: (int, int)|
                    #![trigger buf@.cells[p]]
                    area.contains(p.0, p.1) && p.1 < y ==> buf@.cells[p] == grid.cells[p],
        {
            let line = lines[y as usize];
            let mut x: u16 = 0;
            for c in it: line.chars()
                invariant
                    it.seq() == line@,
                    line == lines@[y as int],
                    x == it.index(),
                    0 <= y < height,
                    rows_fit(lines@),
                    height == lines@.len(),
                    area == grid.area,
                    grid == Grid::of_lines(lines@),
                    buf@.area == area,
                    buf@.cells.dom() == area.points(),
                    forall|p: (int, int)|
                        #![trigger buf@.cells[p]]
                        area.contains(p.0, p.1) && (p.1 < y || (p.1 == y && p.0 < x))
                            ==> buf@.cells[p] == grid.cells[p],
            {
                *buf.get_mut(x, y) = Cell::new(c, Style::default());
                x += 1;
            }
        }
        buf
    }

    /// The extent of the buffer.
    pub fn area(&self) -> (r: Rect)
        ensures
            r == self@.area,
    {
        self.area
    }

    /// The place of `(x, y)` in `content`.
    fn index_of(&self, x: u16, y: u16) -> (i: usize)
        requires
            self.area.contains(x as int, y as int),
        ensures
            i == offset(self.area, x as int, y as int),
            i < self.content@.len(),
    {
        proof {
            use_type_invariant(self);
            lemma_offset_in_range(self.area, x as int, y as int);
        }
        let row: usize = (y - self.area.y) as usize;
        let col: usize = (x - self.area.x) as usize;
        row * (self.area.width as usize) + col
    }

    /// The cell at `(x, y)`, which must lie within the extent.
    pub fn get(&self, x: u16, y: u16) -> (r: &Cell)
        requires
            self@.area.contains(x as int, y as int),
        ensures
            *r == self@.at(x as int, y as int),
    {
        let i = self.index_of(x, y);
        &self.content[i]
    }

    /// The cell at `(x, y)`, which must lie within the extent, for writing.
    ///
    /// Whatever the caller stores through the reference becomes the cell at
    /// `(x, y)`; every other cell and the extent stay as they are.
    pub fn get_mut(&mut self, x: u16, y: u16) -> (r: &mut Cell)
        requires
            old(self)@.area.contains(x as int, y as int),
        ensures
            *r == old(self)@.at(x as int, y as int),
            final(self)@ == old(self)@.put(x as int, y as int, *final(r)),
    {
        let i = self.index_of(x, y);
        proof {
            use_type_invariant(&*self);
            let area = self.area;
            assert forall|p: (int, int)|
                #![trigger offset(area, p.0, p.1)]
                area.contains(p.0, p.1) && p != (x as int, y as int)
                implies offset(area, p.0, p.1) != i && 0 <= offset(area, p.0, p.1)
                    < self.content@.len() by {
                lemma_offset_in_range(area, p.0, p.1);
                if offset(area, p.0, p.1) == i {
                    lemma_offset_injective(area, p.0, p.1, x as int, y as int);
                }
            }
        }
        &mut self.content[i]
    }
}

impl Clone for Buffer {
    /// A buffer of its own with the same extent and the same cells.
    fn clone(&self) -> (r: Buffer)
        ensures
            r@ == self@,
    {
        proof {
            use_type_invariant(self);
        }
        Buffer { area: self.area, content: self.content.clone() }
    }
}

impl PartialEq for Buffer {
    /// Whether the two buffers have the same extent and show the same cell at
    /// each coordinate of it.
    fn eq(&self, other: &Buffer) -> (r: bool) {
        proof {
            use_type_invariant(self);
            use_type_invariant(other);
        }
        if self.area != other.area {
            return false;
        }
        let n = self.content.len();
        let mut i: usize = 0;
        while i < n
            invariant
                self.area == other.area,
                n == self.content@.len() == other.content@.len(),
                n == self.area.width * self.area.height,
                0 <= i <= n,
                forall|j: int| 0 <= j < i ==> self.content@[j] == other.content@[j],
            decreases n - i,
        {
            if self.content[i] != other.content[i] {
                proof {
                    lemma_coordinate(self.area, i as int);
                    let p = coordinate(self.area, i as int);
                    assert(self@.cells[p] != other@.cells[p]);
                }
                return false;
            }
            i += 1;
        }
        proof {
            assert forall|p: (int, int)| self.area.contains(p.0, p.1) implies 0 <= offset(
                self.area,
                p.0,
                p.1,
            ) < n by {
                lemma_offset_in_range(self.area, p.0, p.1);
            }
            assert(self@.cells =~= other@.cells);
        }
        true
    }
}

impl PartialEqSpecImpl for Buffer {
    open spec fn obeys_eq_spec() -> bool {
        true
    }

    open spec fn eq_spec(&self, other: &Buffer) -> bool {
        self@ == other@
    }
}

impl Eq for Buffer {

}

/// Where the cell at `(x, y)` sits in the row-by-row layout of `area`.
spec fn offset(area: Rect, x: int, y: int) -> int {
    (y - area.y) * area.width + (x - area.x)
}

/// Every coordinate of `area` has a place of its own within
/// `area.width * area.height` places.
proof fn lemma_offset_in_range(area: Rect, x: int, y: int)
    requires
        area.contains(x, y),
    ensures
        0 <= offset(area, x, y) < area.width * area.height <= 0xffff * 0xffff,
{
    let row = y - area.y;
    let col = x - area.x;
    let width = area.width as int;
    let height = area.height as int;
    assert(0 <= row * width + col < width * height <= 0xffff * 0xffff) by (nonlinear_arith)
        requires
            0 <= col < width <= 0xffff,
            0 <= row < height <= 0xffff,
    ;
}

/// Two coordinates of `area` that share a place are the same coordinate.
proof fn lemma_offset_injective(area: Rect, x1: int, y1: int, x2: int, y2: int)
    requires
        area.contains(x1, y1),
        area.contains(x2, y2),
        offset(area, x1, y1) == offset(area, x2, y2),
    ensures
        x1 == x2,
        y1 == y2,
{
    let width = area.width as int;
    let r1 = y1 - area.y;
    let r2 = y2 - area.y;
    let c1 = x1 - area.x;
    let c2 = x2 - area.x;
    assert(r1 == r2 && c1 == c2) by (nonlinear_arith)
        requires
            0 <= c1 < width,
            0 <= c2 < width,
            r1 * width + c1 == r2 * width + c2,
    ;
}

/// The coordinate of `area` that is kept at place `i` of its row-by-row
/// layout.
spec fn coordinate(area: Rect, i: int) -> (int, int) {
    (area.x + i % (area.width as int), area.y + i / (area.width as int))
}

/// Every place of the layout belongs to a coordinate of `area`.
proof fn lemma_coordinate(area: Rect, i: int)
    requires
        0 <= i < area.width * area.height,
    ensures
        area.contains(coordinate(area, i).0, coordinate(area, i).1),
        offset(area, coordinate(area, i).0, coordinate(area, i).1) == i,
{
    let width = area.width as int;
    let height = area.height as int;
    assert(width > 0) by (nonlinear_arith)
        requires
            0 <= i < width * height,
            0 <= width,
    ;
    lemma_fundamental_div_mod(i, width);
    lemma_mod_pos_bound(i, width);
    lemma_multiply_divide_lt(i, width, height);
    assert((i / width) * width == width * (i / width)) by (nonlinear_arith);
}

} // verus!
