//! The grid that the level is hashed into.
//!
//! A shape occupies the cells that its bounding box reaches. On the grid that
//! is a block of cells, a [`CellRange`]: every cell `(x, y)` between a lowest
//! and a highest column and a lowest and a highest row, both ends included.

use vstd::arithmetic::div_mod::lemma_fundamental_div_mod;
use vstd::arithmetic::div_mod::lemma_fundamental_div_mod_converse;
use vstd::arithmetic::div_mod::lemma_mod_pos_bound;
use vstd::prelude::*;

verus! {

/// A grid cell, column first.
pub type Cell = [i32; 2];

/// The column and the row of a cell.
pub open spec fn cell_point(cell: Cell) -> (int, int) {
    (cell[0] as int, cell[1] as int)
}

/// The columns and rows of a list of cells, in the list's order.
pub open spec fn cell_points(cells: Seq<Cell>) -> Seq<(int, int)> {
    Seq::new(cells.len(), |k: int| cell_point(cells[k]))
}

/// A block of grid cells, bounds included. A block whose lowest column lies
/// above its highest one, or whose lowest row lies above its highest one,
/// holds no cell.
#[derive(Clone, Copy, PartialEq, Eq, Structural, Debug)]
pub struct CellRange {
    pub min_x: i32,
    pub max_x: i32,
    pub min_y: i32,
    pub max_y: i32,
}

impl CellRange {
    /// Whether the cell `(x, y)` lies in the block.
    pub open spec fn contains(self, x: int, y: int) -> bool {
        self.min_x <= x <= self.max_x && self.min_y <= y <= self.max_y
    }

    /// The number of columns.
    pub open spec fn columns(self) -> nat {
        if self.min_x <= self.max_x {
            (self.max_x - self.min_x + 1) as nat
        } else {
            0
        }
    }

    /// The number of rows.
    pub open spec fn rows(self) -> nat {
        if self.min_y <= self.max_y {
            (self.max_y - self.min_y + 1) as nat
        } else {
            0
        }
    }

    /// The number of cells.
    pub open spec fn count(self) -> nat {
        self.columns() * self.rows()
    }

    /// The cell at place `k` when the block is walked column by column from
    /// the lowest column, and each column from the lowest row up.
    pub open spec fn cell_at(self, k: int) -> (int, int) {
        (self.min_x + k / (self.rows() as int), self.min_y + k % (self.rows() as int))
    }

    /// The cells of the block, column by column.
    pub open spec fn spec_cells(self) -> Seq<(int, int)> {
        Seq::new(self.count(), |k: int| self.cell_at(k))
    }

    /// Whether two blocks share a cell: neither is empty, and on each axis
    /// neither starts beyond the other's end.
    pub open spec fn overlaps(self, other: CellRange) -> bool {
        &&& self.min_x <= self.max_x
        &&& self.min_y <= self.max_y
        &&& other.min_x <= other.max_x
        &&& other.min_y <= other.max_y
        &&& self.min_x <= other.max_x
        &&& other.min_x <= self.max_x
        &&& self.min_y <= other.max_y
        &&& other.min_y <= self.max_y
    }

    /// Whether the block holds no cell.
    pub fn is_empty(&self) -> (empty: bool)
        ensures
            empty == (self.count() == 0),
            empty == (self.min_x > self.max_x || self.min_y > self.max_y),
    {
        proof {
            lemma_count_positive(*self);
        }
        self.min_x > self.max_x || self.min_y > self.max_y
    }

    /// Whether the cell `(x, y)` lies in the block.
    pub fn holds(&self, x: i32, y: i32) -> (inside: bool)
        ensures
            inside == self.contains(x as int, y as int),
    {
        self.min_x <= x && x <= self.max_x && self.min_y <= y && y <= self.max_y
    }

    /// Whether the two blocks share a cell.
    pub fn intersects(&self, other: &CellRange) -> (shared: bool)
        ensures
            shared == self.overlaps(*other),
    {
        self.min_x <= self.max_x && self.min_y <= self.max_y && other.min_x <= other.max_x
            && other.min_y <= other.max_y && self.min_x <= other.max_x && other.min_x
            <= self.max_x && self.min_y <= other.max_y && other.min_y <= self.max_y
    }

    /// Lists the cells of the block, column by column from the lowest column,
    /// each column from the lowest row up.
    pub fn cells(&self) -> (cells: Vec<Cell>)
        ensures
            cell_points(cells@) == self.spec_cells(),
    {
        let mut cells: Vec<Cell> = Vec::new();
        if self.min_x > self.max_x || self.min_y > self.max_y {
            proof {
                lemma_count_positive(*self);
            }
            assert(cell_points(cells@) =~= self.spec_cells());
            return cells;
        }
        let ghost rows = self.rows() as int;
        let mut x: i64 = self.min_x as i64;
        while x <= self.max_x as i64
            invariant
                self.min_x <= self.max_x,
                self.min_y <= self.max_y,
                rows == self.rows(),
                self.min_x <= x <= self.max_x + 1,
                cells@.len() == (x - self.min_x) * rows,
                forall|k: int| 0 <= k < cells@.len() ==> cell_point(#[trigger] cells@[k]) == self.cell_at(k),
            decreases self.max_x + 1 - x,
        {
            let mut y: i64 = self.min_y as i64;
            while y <= self.max_y as i64
                invariant
                    self.min_x <= self.max_x,
                    self.min_y <= self.max_y,
                    rows == self.rows(),
                    self.min_x <= x <= self.max_x,
                    self.min_y <= y <= self.max_y + 1,
                    cells@.len() == (x - self.min_x) * rows + (y - self.min_y),
                    forall|k: int| 0 <= k < cells@.len() ==> cell_point(#[trigger] cells@[k]) == self.cell_at(k),
                decreases self.max_y + 1 - y,
            {
                let cell: Cell = [x as i32, y as i32];
                proof {
                    lemma_fundamental_div_mod_converse(
                        cells@.len() as int,
                        rows,
                        x - self.min_x,
                        y - self.min_y,
                    );
                }
                cells.push(cell);
                y = y + 1;
            }
            assert((x - self.min_x) * rows + rows == (x + 1 - self.min_x) * rows)
                by (nonlinear_arith);
            x = x + 1;
        }
        assert(cells@.len() == self.count()) by (nonlinear_arith)
            requires
                cells@.len() == (x - self.min_x) * rows,
                x == self.max_x + 1,
                self.min_x <= self.max_x,
                rows == self.rows(),
                self.count() == self.columns() * self.rows(),
                self.columns() == self.max_x - self.min_x + 1,
        ;
        assert(cell_points(cells@) =~= self.spec_cells());
        cells
    }
}

/// A block holds a cell exactly when it has a column and a row.
pub proof fn lemma_count_positive(range: CellRange)
    ensures
        range.count() > 0 <==> (range.min_x <= range.max_x && range.min_y <= range.max_y),
{
    assert(range.count() > 0 <==> (range.columns() > 0 && range.rows() > 0)) by (nonlinear_arith)
        requires
            range.count() == range.columns() * range.rows(),
    ;
}

/// The place of a cell of the block in the walk of the block is its column's
/// distance from the lowest column times the number of rows, plus its row's
/// distance from the lowest row.
proof fn lemma_cell_place(range: CellRange, x: int, y: int)
    requires
        range.contains(x, y),
    ensures
        0 <= (x - range.min_x) * range.rows() + (y - range.min_y) < range.count(),
        range.cell_at((x - range.min_x) * range.rows() + (y - range.min_y)) == (x, y),
{
    let rows = range.rows() as int;
    let columns = range.columns() as int;
    let a = x - range.min_x;
    let b = y - range.min_y;
    lemma_fundamental_div_mod_converse(a * rows + b, rows, a, b);
    assert(0 <= a * rows + b < columns * rows) by (nonlinear_arith)
        requires
            0 <= a < columns,
            0 <= b < rows,
    ;
}

/// Every place of the walk holds a cell of the block.
proof fn lemma_cell_at_inside(range: CellRange, k: int)
    requires
        0 <= k < range.count(),
    ensures
        range.contains(range.cell_at(k).0, range.cell_at(k).1),
{
    let rows = range.rows() as int;
    let columns = range.columns() as int;
    lemma_count_positive(range);
    lemma_fundamental_div_mod(k, rows);
    lemma_mod_pos_bound(k, rows);
    let q = k / rows;
    let r = k % rows;
    assert(0 <= q < columns) by (nonlinear_arith)
        requires
            k == rows * q + r,
            0 <= r < rows,
            0 <= k < columns * rows,
    ;
}

/// The listed cells are those of the block and no others: a cell is listed
/// exactly when it lies between the bounds on both axes.
pub proof fn lemma_cells_exact(range: CellRange, x: int, y: int)
    ensures
        range.spec_cells().contains((x, y)) <==> range.contains(x, y),
{
    if range.contains(x, y) {
        lemma_cell_place(range, x, y);
        let k = (x - range.min_x) * range.rows() + (y - range.min_y);
        assert(range.spec_cells()[k] == (x, y));
    }
    if range.spec_cells().contains((x, y)) {
        let k = choose|k: int| 0 <= k < range.spec_cells().len() && range.spec_cells()[k] == (x, y);
        lemma_cell_at_inside(range, k);
    }
}

/// No cell is listed twice.
pub proof fn lemma_cells_distinct(range: CellRange)
    ensures
        range.spec_cells().no_duplicates(),
{
    let rows = range.rows() as int;
    assert forall|i: int, j: int|
        0 <= i < range.spec_cells().len() && 0 <= j < range.spec_cells().len() && i != j
        implies range.spec_cells()[i] != range.spec_cells()[j] by {
        lemma_count_positive(range);
        lemma_fundamental_div_mod(i, rows);
        lemma_fundamental_div_mod(j, rows);
    }
}

/// Two blocks overlap exactly when some cell lies in both.
pub proof fn lemma_overlaps_shares_cell(a: CellRange, b: CellRange)
    ensures
        a.overlaps(b) <==> exists|x: int, y: int| a.contains(x, y) && b.contains(x, y),
{
    if a.overlaps(b) {
        let x = if a.min_x >= b.min_x { a.min_x as int } else { b.min_x as int };
        let y = if a.min_y >= b.min_y { a.min_y as int } else { b.min_y as int };
        assert(a.contains(x, y) && b.contains(x, y));
    }
}

} // verus!
