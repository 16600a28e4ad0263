//! The grid of cells that is shown on the terminal.

use vstd::prelude::*;
use crate::ui::tui::Colour;

verus! {

/// One character of the terminal with its colour and weight.
#[derive(Clone, Copy, Debug, PartialEq, Eq, Structural)]
pub struct Cell {
    pub char: char,
    pub colour: Colour,
    pub bold: bool,
}

/// The cell of an empty place: a white blank.
pub open spec fn blank() -> Cell {
    Cell { char: ' ', colour: Colour::White, bold: false }
}

/// `n` empty cells.
pub fn blank_cells(n: usize) -> (r: Vec<Cell>)
    ensures
        r@.len() == n,
        forall|i: int| 0 <= i < n ==> #[trigger] r@[i] == blank(),
{
    let mut cells: Vec<Cell> = Vec::new();
    let mut i: usize = 0;
    while i < n
        invariant
            i <= n,
            cells@.len() == i,
            forall|j: int| 0 <= j < i ==> #[trigger] cells@[j] == blank(),
        decreases n - i,
    {
        cells.push(Cell { char: ' ', colour: Colour::White, bold: false });
        i += 1;
    }
    cells
}

/// A grid of `width` by `height` cells, kept row by row.
#[derive(Debug, PartialEq)]
pub struct FrameBuffer {
    pub width: u16,
    pub height: u16,
    pub cells: Vec<Cell>,
}

impl FrameBuffer {
    /// Whether the buffer holds one cell for each place of the grid.
    pub open spec fn wf(&self) -> bool {
        self.cells@.len() == self.width * self.height
    }

    /// Whether the buffer holds one cell for each place of the grid.
    pub fn is_wf(&self) -> (r: bool)
        ensures
            r == self.wf(),
    {
        assert(self.width * self.height <= 0xffff * 0xffff) by (nonlinear_arith)
            requires
                0 <= self.width <= 0xffff,
                0 <= self.height <= 0xffff,
        ;
        self.cells.len() as u64 == (self.width as u64) * (self.height as u64)
    }

    /// The position in `cells` of the place in column `x` of row `y`.
    pub open spec fn loc_spec(&self, x: u16, y: u16) -> int {
        y * self.width + x
    }

    /// A grid of empty cells.
    pub fn new(width: u16, height: u16) -> (r: Self)
        ensures
            r.wf(),
            r.width == width,
            r.height == height,
            forall|i: int| 0 <= i < width * height ==> #[trigger] r.cells@[i] == blank(),
    {
        assert(width * height <= 0xffff * 0xffff) by (nonlinear_arith)
            requires
                0 <= width <= 0xffff,
                0 <= height <= 0xffff,
        ;
        let size = (width as usize) * (height as usize);
        FrameBuffer { width, height, cells: blank_cells(size) }
    }

    fn loc(&self, x: u16, y: u16) -> (r: usize)
        requires
            self.loc_spec(x, y) <= u16::MAX,
        ensures
            r == self.loc_spec(x, y),
    {
        assert(y * self.width >= 0) by (nonlinear_arith)
            requires
                y >= 0,
                self.width >= 0,
        ;
        (y * self.width + x) as usize
    }

    /// Sets the cell in column `x` of row `y`. The position of the place is
    /// computed in sixteen bits, so it must fit in them.
    pub fn put(&mut self, x: u16, y: u16, cell: Cell)
        requires
            old(self).loc_spec(x, y) <= u16::MAX,
            old(self).loc_spec(x, y) < old(self).cells@.len(),
        ensures
            final(self).cells@ == old(self).cells@.update(old(self).loc_spec(x, y), cell),
            final(self).width == old(self).width,
            final(self).height == old(self).height,
    {
        let i = self.loc(x, y);
        self.cells.set(i, cell);
    }

    /// The cell in column `x` of row `y`.
    pub fn get(&self, x: u16, y: u16) -> (r: Cell)
        requires
            self.loc_spec(x, y) <= u16::MAX,
            self.loc_spec(x, y) < self.cells@.len(),
        ensures
            r == self.cells@[self.loc_spec(x, y)],
    {
        self.cells[self.loc(x, y)]
    }
}

} // verus!
