//! The off-screen render target: a rectangular grid of styled character
//! cells, with clipped writes.

use vstd::prelude::*;
use vstd::pervasive::VecAdditionalExecFns;

verus! {

/// A rectangle in buffer space.
#[derive(Copy, Clone, Debug, PartialEq, Eq, Structural)]
pub struct Rect {
    pub x: u16,
    pub y: u16,
    pub width: u16,
    pub height: u16,
}

/// A point in buffer space.
#[derive(Copy, Clone, Debug, PartialEq, Eq, Structural)]
pub struct Position {
    pub x: u16,
    pub y: u16,
}

/// Whether a rectangle contains a point.
pub open spec fn rect_contains(r: Rect, p: Position) -> bool {
    r.x <= p.x && (p.x as int) < r.x + r.width && r.y <= p.y && (p.y as int) < r.y + r.height
}

impl Rect {
    /// A rectangle from its corner and size.
    pub fn new(x: u16, y: u16, width: u16, height: u16) -> (r: Rect)
        ensures
            r == (Rect { x, y, width, height }),
    {
        Rect { x, y, width, height }
    }

    /// Whether the point lies inside this rectangle.
    pub fn contains(&self, p: Position) -> (r: bool)
        ensures
            r == rect_contains(*self, p),
    {
        p.x >= self.x && p.x - self.x < self.width && p.y >= self.y && p.y - self.y < self.height
    }
}

/// The visual attributes of one cell.
#[derive(Copy, Clone, Debug, PartialEq, Eq, Structural)]
pub struct CellStyle {
    /// Bold glyph.
    pub bold: bool,
    /// Italic glyph.
    pub italic: bool,
    /// Underlined glyph (links).
    pub underlined: bool,
    /// Reversed colors (preformatted text).
    pub reversed: bool,
    /// Highlighted (the focused fragment).
    pub highlighted: bool,
    /// Heading level the cell belongs to, or 0.
    pub heading: u8,
}

impl CellStyle {
    /// The style that marks nothing.
    pub open spec fn spec_plain() -> CellStyle {
        CellStyle {
            bold: false,
            italic: false,
            underlined: false,
            reversed: false,
            highlighted: false,
            heading: 0,
        }
    }

    /// The style that marks nothing, executable form.
    pub fn plain() -> (r: CellStyle)
        ensures
            r == CellStyle::spec_plain(),
    {
        CellStyle {
            bold: false,
            italic: false,
            underlined: false,
            reversed: false,
            highlighted: false,
            heading: 0,
        }
    }
}

/// One character cell of the render target.
#[derive(Copy, Clone, Debug, PartialEq, Eq, Structural)]
pub struct Cell {
    /// The character shown in the cell.
    pub ch: char,
    /// The cell's visual attributes.
    pub style: CellStyle,
}

impl Cell {
    /// The empty cell.
    pub open spec fn spec_blank() -> Cell {
        Cell { ch: ' ', style: CellStyle::spec_plain() }
    }

    /// The empty cell, executable form.
    pub fn blank() -> (r: Cell)
        ensures
            r == Cell::spec_blank(),
    {
        Cell { ch: ' ', style: CellStyle::plain() }
    }
}

/// A grid of `width * height` cells in row-major order.
#[derive(Debug)]
pub struct CellBuffer {
    /// Columns of the grid.
    pub width: u16,
    /// Rows of the grid.
    pub height: u16,
    /// The cells, row-major: index `y * width + x`.
    pub cells: Vec<Cell>,
}

impl CellBuffer {
    /// Well-formedness: the cell vector covers the grid exactly.
    pub open spec fn wf(&self) -> bool {
        self.cells@.len() == self.width as int * self.height as int
    }

    /// The cell at a coordinate.
    pub open spec fn cell_at(&self, x: int, y: int) -> Cell {
        self.cells@[y * self.width as int + x]
    }

    /// A blank grid of the given size.
    pub fn new(width: u16, height: u16) -> (r: CellBuffer)
        ensures
            r.wf(),
            r.width == width,
            r.height == height,
            r.cells@ == blank_grid(width, height),
    {
        proof {
            assert((width as int) * (height as int) <= usize::MAX) by (nonlinear_arith)
                requires
                    width <= 65535,
                    height <= 65535,
            ;
        }
        let total: usize = (width as usize) * (height as usize);
        let mut cells: Vec<Cell> = Vec::new();
        let mut i: usize = 0;
        while i < total
            invariant
                i <= total,
                total == width as int * height as int,
                cells@.len() == i,
                forall|k: int| 0 <= k < i ==> cells@[k] == Cell::spec_blank(),
            decreases total - i,
        {
            cells.push(Cell::blank());
            i += 1;
        }
        let r = CellBuffer { width, height, cells };
        proof {
            assert(r.cells@ =~= blank_grid(width, height));
        }
        r
    }

    /// The cell at a coordinate.
    pub fn get(&self, x: u16, y: u16) -> (r: Cell)
        requires
            self.wf(),
            x < self.width,
            y < self.height,
        ensures
            r == self.cell_at(x as int, y as int),
    {
        proof {
            lemma_grid_index(self.width, self.height, x as int, y as int);
        }
        let idx: usize = (y as usize) * (self.width as usize) + (x as usize);
        self.cells[idx]
    }

    /// Writes the cell at a coordinate; writes outside the grid are
    /// dropped.
    pub fn put(&mut self, x: usize, y: usize, c: Cell)
        requires
            old(self).wf(),
        ensures
            final(self).wf(),
            final(self).width == old(self).width,
            final(self).height == old(self).height,
            final(self).cells@ == put_at(
                old(self).cells@,
                old(self).width,
                old(self).height,
                x as int,
                y as int,
                c,
            ),
    {
        if x < self.width as usize && y < self.height as usize {
            proof {
                lemma_grid_index(self.width, self.height, x as int, y as int);
            }
            let idx: usize = y * (self.width as usize) + x;
            self.cells.set(idx, c);
        }
    }
}

/// A blank grid of the given size, as a sequence.
pub open spec fn blank_grid(width: u16, height: u16) -> Seq<Cell> {
    Seq::new((width as int * height as int) as nat, |i: int| Cell::spec_blank())
}

/// One clipped write into a grid: coordinates outside the grid change
/// nothing.
pub open spec fn put_at(cells: Seq<Cell>, width: u16, height: u16, x: int, y: int, c: Cell) -> Seq<
    Cell,
> {
    if 0 <= x < width && 0 <= y < height && 0 <= y * width + x < cells.len() {
        cells.update(y * width + x, c)
    } else {
        cells
    }
}

/// A coordinate inside the grid indexes inside the cell vector.
pub proof fn lemma_grid_index(width: u16, height: u16, x: int, y: int)
    by (nonlinear_arith)
    requires
        0 <= x < width,
        0 <= y < height,
    ensures
        0 <= y * width + x < width as int * height as int,
        y * width + x <= usize::MAX,
{
}

} // verus!
