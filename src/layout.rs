//! Placement of subplots in a figure.

use crate::draw::{Area, Size};
use crate::error::PltError;
use crate::grid::{grid_cells, grid_shape, shape_ok, CellGrid, GridCell};
use crate::subplot::{Subplot, SubplotDescriptor};
use vstd::prelude::*;

verus! {

/// A part of a figure given by fractional bounds, each in millionths of the
/// figure's extent (one million is the whole width or height).
#[derive(Copy, Clone, Debug, PartialEq, Eq, Structural)]
pub struct FractionalArea {
    pub xmin: i64,
    pub xmax: i64,
    pub ymin: i64,
    pub ymax: i64,
}

/// `a / b` rounded up, for `a >= 0` and `b > 0`.
pub open spec fn ceil_div(a: int, b: int) -> int {
    (a + b - 1) / b
}

impl FractionalArea {
    /// Every bound within the figure and each minimum below its maximum.
    pub open spec fn is_valid(&self) -> bool {
        0 <= self.xmin <= 1_000_000 && 0 <= self.xmax <= 1_000_000
            && 0 <= self.ymin <= 1_000_000 && 0 <= self.ymax <= 1_000_000
            && self.xmin < self.xmax && self.ymin < self.ymax
    }

    /// The dot area of a valid fractional area in a figure of `size`: each
    /// minimum rounded up, each maximum rounded down. An area narrower than
    /// a dot can come out inverted.
    pub open spec fn area_in(&self, size: Size) -> Area {
        let xmin = ceil_div(self.xmin * size.width, 1_000_000);
        let xmax = (self.xmax * size.width) / 1_000_000;
        let ymin = ceil_div(self.ymin * size.height, 1_000_000);
        let ymax = (self.ymax * size.height) / 1_000_000;
        Area {
            xmin: xmin as u32,
            xmax: xmax as u32,
            ymin: ymin as u32,
            ymax: ymax as u32,
        }
    }

    pub fn valid(&self) -> (r: bool)
        ensures
            r == self.is_valid(),
    {
        self.xmin >= 0 && self.xmin <= 1_000_000 && self.xmax >= 0 && self.xmax <= 1_000_000
            && self.ymin >= 0 && self.ymin <= 1_000_000 && self.ymax >= 0 && self.ymax
            <= 1_000_000 && self.xmin < self.xmax && self.ymin < self.ymax
    }

    pub fn to_area(self, size: Size) -> (r: Area)
        requires
            self.is_valid(),
        ensures
            r == self.area_in(size),
            r.xmax <= size.width,
            r.ymax <= size.height,
    {
        let w = size.width as u64;
        let h = size.height as u64;
        proof {
            assert(self.xmin * w <= 1_000_000 * w) by (nonlinear_arith)
                requires 0 <= self.xmin <= 1_000_000, w >= 0;
            assert(self.xmax * w <= 1_000_000 * w) by (nonlinear_arith)
                requires 0 <= self.xmax <= 1_000_000, w >= 0;
            assert(self.ymin * h <= 1_000_000 * h) by (nonlinear_arith)
                requires 0 <= self.ymin <= 1_000_000, h >= 0;
            assert(self.ymax * h <= 1_000_000 * h) by (nonlinear_arith)
                requires 0 <= self.ymax <= 1_000_000, h >= 0;
            assert((self.xmin * w + 999_999) / 1_000_000 <= w);
            assert((self.ymin * h + 999_999) / 1_000_000 <= h);
            assert((self.xmax * w) / 1_000_000 <= w);
            assert((self.ymax * h) / 1_000_000 <= h);
        }
        let xmin = (self.xmin as u64 * w + 999_999) / 1_000_000;
        let xmax = (self.xmax as u64 * w) / 1_000_000;
        let ymin = (self.ymin as u64 * h + 999_999) / 1_000_000;
        let ymax = (self.ymax as u64 * h) / 1_000_000;
        Area {
            xmin: xmin as u32,
            xmax: xmax as u32,
            ymin: ymin as u32,
            ymax: ymax as u32,
        }
    }
}

/// Every subplot of the list is well formed.
pub open spec fn all_wf(l: Seq<(Subplot, FractionalArea)>) -> bool {
    forall|i: int| 0 <= i < l.len() ==> (#[trigger] l[i]).0.wf()
}

/// Places subplots in a figure.
pub trait Layout {
    spec fn placed(&self) -> Seq<(Subplot, FractionalArea)>;

    spec fn layout_wf(&self) -> bool;

    /// The subplots with their areas.
    fn subplots(self) -> (r: Vec<(Subplot, FractionalArea)>)
        requires
            self.layout_wf(),
        ensures
            r@ == self.placed(),
            all_wf(r@),
    ;
}

/// A layout in which a single subplot fills the whole figure.
pub struct SingleLayout {
    pub subplot: Subplot,
}

impl SingleLayout {
    pub fn new(subplot: Subplot) -> (r: Self)
        ensures
            r.subplot == subplot,
    {
        SingleLayout { subplot }
    }
}

/// The whole figure.
pub open spec fn whole() -> FractionalArea {
    FractionalArea { xmin: 0, xmax: 1_000_000, ymin: 0, ymax: 1_000_000 }
}

impl Layout for SingleLayout {
    open spec fn placed(&self) -> Seq<(Subplot, FractionalArea)> {
        seq![(self.subplot, whole())]
    }

    open spec fn layout_wf(&self) -> bool {
        self.subplot.wf()
    }

    fn subplots(self) -> (r: Vec<(Subplot, FractionalArea)>) {
        let r = vec![(self.subplot, FractionalArea { xmin: 0, xmax: 1_000_000, ymin: 0, ymax: 1_000_000 })];
        assert(r@ =~= self.placed());
        r
    }
}

/// The area of the cell at `row`, `col` in a grid of `nrows` rows and
/// `ncols` columns, row 0 at the top.
pub open spec fn cell_area(row: int, col: int, nrows: int, ncols: int) -> FractionalArea {
    FractionalArea {
        xmin: (col * 1_000_000 / ncols) as i64,
        xmax: ((col + 1) * 1_000_000 / ncols) as i64,
        ymin: ((nrows - 1 - row) * 1_000_000 / nrows) as i64,
        ymax: ((nrows - row) * 1_000_000 / nrows) as i64,
    }
}

fn cell_area_exec(row: usize, col: usize, nrows: usize, ncols: usize) -> (r: FractionalArea)
    requires
        row < nrows,
        col < ncols,
    ensures
        r == cell_area(row as int, col as int, nrows as int, ncols as int),
{
    proof {
        assert((col + 1) * 1_000_000 / (ncols as int) <= 1_000_000) by (nonlinear_arith)
            requires col + 1 <= ncols, ncols >= 1;
        assert(col * 1_000_000 / (ncols as int) <= 1_000_000) by (nonlinear_arith)
            requires col + 1 <= ncols, ncols >= 1;
        assert((nrows - row) * 1_000_000 / (nrows as int) <= 1_000_000) by (nonlinear_arith)
            requires row < nrows, nrows >= 1;
        assert((nrows - 1 - row) * 1_000_000 / (nrows as int) <= 1_000_000) by (nonlinear_arith)
            requires row < nrows, nrows >= 1;
    }
    FractionalArea {
        xmin: (col as u128 * 1_000_000 / ncols as u128) as i64,
        xmax: ((col as u128 + 1) * 1_000_000 / ncols as u128) as i64,
        ymin: ((nrows - 1 - row) as u128 * 1_000_000 / nrows as u128) as i64,
        ymax: ((nrows - row) as u128 * 1_000_000 / nrows as u128) as i64,
    }
}

/// A layout in which subplots sit in the cells of a grid.
pub struct GridLayout {
    pub grid: CellGrid,
}

impl GridLayout {
    /// Cells at their places, subplots well formed.
    pub open spec fn wf(&self) -> bool {
        let (nrows, ncols) = grid_shape(self.grid);
        &&& grid_cells(self.grid).len() == nrows * ncols
        &&& forall|i: int| 0 <= i < grid_cells(self.grid).len() ==> (#[trigger] grid_cells(self.grid)[i]).subplot.wf()
        &&& forall|i: int| 0 <= i < grid_cells(self.grid).len() ==> (#[trigger] grid_cells(self.grid)[i]).area
            == cell_area(i / ncols as int, i % ncols as int, nrows as int, ncols as int)
    }

    /// An empty grid of `nrows` rows and `ncols` columns.
    pub fn new(nrows: usize, ncols: usize) -> (r: Self)
        requires
            shape_ok(nrows as int, ncols as int),
        ensures
            r.wf(),
            grid_shape(r.grid) == (nrows as nat, ncols as nat),
            forall|i: int| 0 <= i < nrows * ncols ==> !(#[trigger] grid_cells(r.grid)[i]).filled,
    {
        let n = nrows * ncols;
        let mut cells: Vec<GridCell> = Vec::new();
        let mut i: usize = 0;
        while i < n
            invariant
                n == nrows * ncols,
                i <= n,
                cells@.len() == i,
                forall|j: int| 0 <= j < i ==> (#[trigger] cells@[j]).subplot.wf(),
                forall|j: int| 0 <= j < i ==> !(#[trigger] cells@[j]).filled,
                forall|j: int| 0 <= j < i ==> (#[trigger] cells@[j]).area == cell_area(
                    j / ncols as int,
                    j % ncols as int,
                    nrows as int,
                    ncols as int,
                ),
            decreases n - i,
        {
            proof {
                assert(ncols > 0);
                assert(i / ncols < nrows) by (nonlinear_arith)
                    requires i < nrows * ncols, ncols > 0;
            }
            let area = cell_area_exec(i / ncols, i % ncols, nrows, ncols);
            let subplot = Subplot::new(SubplotDescriptor::default());
            cells.push(GridCell { subplot, area, filled: false });
            i = i + 1;
        }
        GridLayout { grid: CellGrid::from_cells(nrows, ncols, cells) }
    }

    /// A grid from rows of optional subplots; the cells without one stay
    /// empty. Every row has the length of the first.
    pub fn from_array(rows: Vec<Vec<Option<Subplot>>>) -> (r: Self)
        requires
            forall|i: int| 0 <= i < rows@.len() ==> (#[trigger] rows@[i])@.len() == rows@[0]@.len(),
            rows@.len() > 0 ==> shape_ok(rows@.len() as int, rows@[0]@.len() as int),
            forall|i: int, j: int|
                0 <= i < rows@.len() && 0 <= j < rows@[i]@.len() && (#[trigger] rows@[i]@[j]) is Some
                    ==> rows@[i]@[j]->Some_0.wf(),
        ensures
            r.wf(),
            rows@.len() > 0 ==> grid_shape(r.grid) == (rows@.len(), rows@[0]@.len()),
            rows@.len() > 0 ==> forall|i: int, j: int|
                0 <= i < rows@.len() && 0 <= j < rows@[0]@.len() ==> (#[trigger] grid_cells(r.grid)[i * rows@[0]@.len() + j]).filled
                    == rows@[i]@[j] is Some,
            rows@.len() > 0 ==> forall|i: int, j: int|
                0 <= i < rows@.len() && 0 <= j < rows@[0]@.len() && (#[trigger] rows@[i]@[j]) is Some
                    ==> grid_cells(r.grid)[i * rows@[0]@.len() + j].subplot == rows@[i]@[j]->Some_0,
    {
        let nrows = rows.len();
        let ncols = if nrows > 0 { rows[0].len() } else { 0 };
        let ghost orig = rows@;
        let mut rows = rows;
        let mut cells: Vec<GridCell> = Vec::new();
        let mut row: usize = 0;
        while row < nrows
            invariant
                nrows == orig.len(),
                nrows > 0 ==> ncols == orig[0]@.len(),
                forall|i: int| 0 <= i < orig.len() ==> (#[trigger] orig[i])@.len() == orig[0]@.len(),
                nrows > 0 ==> shape_ok(nrows as int, ncols as int),
                forall|i: int, j: int|
                    0 <= i < orig.len() && 0 <= j < orig[i]@.len() && (#[trigger] orig[i]@[j]) is Some
                        ==> orig[i]@[j]->Some_0.wf(),
                row <= nrows,
                rows@.len() == nrows - row,
                forall|k: int| 0 <= k < rows@.len() ==> #[trigger] rows@[k] == orig[row + k],
                cells@.len() == row * ncols,
                forall|k: int| 0 <= k < cells@.len() ==> (#[trigger] cells@[k]).subplot.wf(),
                forall|k: int| 0 <= k < cells@.len() ==> (#[trigger] cells@[k]).area == cell_area(
                    k / ncols as int,
                    k % ncols as int,
                    nrows as int,
                    ncols as int,
                ),
                forall|i: int, j: int|
                    0 <= i < row && 0 <= j < ncols ==> (#[trigger] cells@[i * ncols + j]).filled == orig[i]@[j] is Some,
                forall|i: int, j: int|
                    0 <= i < row && 0 <= j < ncols && (#[trigger] orig[i]@[j]) is Some ==> cells@[i * ncols + j].subplot
                        == orig[i]@[j]->Some_0,
            decreases nrows - row,
        {
            let mut line = rows.remove(0);
            let ghost this_row = orig[row as int]@;
            assert(line@ == this_row);
            let mut col: usize = 0;
            while col < ncols
                invariant
                    nrows == orig.len(),
                    nrows > 0 ==> ncols == orig[0]@.len(),
                    forall|i: int| 0 <= i < orig.len() ==> (#[trigger] orig[i])@.len() == orig[0]@.len(),
                    nrows > 0 ==> shape_ok(nrows as int, ncols as int),
                    forall|i: int, j: int|
                        0 <= i < orig.len() && 0 <= j < orig[i]@.len() && (#[trigger] orig[i]@[j]) is Some
                            ==> orig[i]@[j]->Some_0.wf(),
                    row < nrows,
                    this_row == orig[row as int]@,
                    col <= ncols,
                    line@.len() == ncols - col,
                    forall|k: int| 0 <= k < line@.len() ==> #[trigger] line@[k] == this_row[col + k],
                    cells@.len() == row * ncols + col,
                    forall|k: int| 0 <= k < cells@.len() ==> (#[trigger] cells@[k]).subplot.wf(),
                    forall|k: int| 0 <= k < cells@.len() ==> (#[trigger] cells@[k]).area == cell_area(
                        k / ncols as int,
                        k % ncols as int,
                        nrows as int,
                        ncols as int,
                    ),
                    forall|i: int, j: int|
                        0 <= i < row && 0 <= j < ncols ==> (#[trigger] cells@[i * ncols + j]).filled == orig[i]@[j] is Some,
                    forall|j: int| 0 <= j < col ==> (#[trigger] cells@[row * ncols + j]).filled == orig[row as int]@[j] is Some,
                    forall|i: int, j: int|
                        0 <= i < row && 0 <= j < ncols && (#[trigger] orig[i]@[j]) is Some ==> cells@[i * ncols + j].subplot
                            == orig[i]@[j]->Some_0,
                    forall|j: int|
                        0 <= j < col && (#[trigger] orig[row as int]@[j]) is Some ==> cells@[row * ncols + j].subplot
                            == orig[row as int]@[j]->Some_0,
                decreases ncols - col,
            {
                proof {
                    assert((row * ncols + col) / ncols as int == row && (row * ncols + col) % ncols as int == col)
                        by (nonlinear_arith)
                        requires col < ncols, ncols > 0;
                    assert(row * ncols + col < nrows * ncols) by (nonlinear_arith)
                        requires col < ncols, row < nrows;
                }
                let area = cell_area_exec(row, col, nrows, ncols);
                let item = line.remove(0);
                let (subplot, filled) = match item {
                    Some(sp) => (sp, true),
                    None => (Subplot::new(SubplotDescriptor::default()), false),
                };
                let ghost before = cells@;
                cells.push(GridCell { subplot, area, filled });
                proof {
                    assert forall|i: int, j: int| 0 <= i < row && 0 <= j < ncols implies (#[trigger] cells@[i * ncols + j]).filled
                        == orig[i]@[j] is Some by {
                        assert(i * ncols + j < row * ncols) by (nonlinear_arith)
                            requires i < row, j < ncols;
                        assert(cells@[i * ncols + j] == before[i * ncols + j]);
                    }
                    assert forall|i: int, j: int|
                        0 <= i < row && 0 <= j < ncols && (#[trigger] orig[i]@[j]) is Some implies cells@[i * ncols + j].subplot
                            == orig[i]@[j]->Some_0 by {
                        assert(i * ncols + j < row * ncols) by (nonlinear_arith)
                            requires i < row, j < ncols;
                        assert(cells@[i * ncols + j] == before[i * ncols + j]);
                    }
                }
                col = col + 1;
            }
            proof {
                assert forall|i: int, j: int| 0 <= i < row + 1 && 0 <= j < ncols implies (#[trigger] cells@[i * ncols + j]).filled
                    == orig[i]@[j] is Some by {
                    if i == row {
                    }
                }
                assert forall|i: int, j: int|
                    0 <= i < row + 1 && 0 <= j < ncols && (#[trigger] orig[i]@[j]) is Some implies cells@[i * ncols + j].subplot
                        == orig[i]@[j]->Some_0 by {
                    if i == row {
                    }
                }
                assert((row + 1) * ncols == row * ncols + ncols) by (nonlinear_arith);
            }
            row = row + 1;
        }
        GridLayout { grid: CellGrid::from_cells(nrows, ncols, cells) }
    }

    /// Places `subplot` in the cell at `row`, `col`.
    pub fn insert(&mut self, pos: (usize, usize), subplot: Subplot) -> (r: Result<(), PltError>)
        requires
            old(self).wf(),
            subplot.wf(),
        ensures
            final(self).wf(),
            r is Err <==> pos.0 >= grid_shape(old(self).grid).0 || pos.1 >= grid_shape(old(self).grid).1,
            r == Err::<(), PltError>(PltError::InvalidRow { row: pos.0, nrows: grid_shape(old(self).grid).0 as usize })
                <== pos.0 >= grid_shape(old(self).grid).0,
            r == Err::<(), PltError>(PltError::InvalidColumn { col: pos.1, ncols: grid_shape(old(self).grid).1 as usize })
                <== pos.0 < grid_shape(old(self).grid).0 && pos.1 >= grid_shape(old(self).grid).1,
            r is Err ==> grid_cells(final(self).grid) == grid_cells(old(self).grid) && final(self).grid == old(self).grid,
            r is Ok ==> grid_cells(final(self).grid) == grid_cells(old(self).grid).update(
                pos.0 * grid_shape(old(self).grid).1 + pos.1,
                GridCell {
                    subplot,
                    area: grid_cells(old(self).grid)[pos.0 * grid_shape(old(self).grid).1 + pos.1].area,
                    filled: true,
                },
            ),
            grid_shape(final(self).grid) == grid_shape(old(self).grid),
    {
        let (row, col) = pos;
        let nrows = self.grid.nrows();
        let ncols = self.grid.ncols();
        if row >= nrows {
            return Err(PltError::InvalidRow { row, nrows });
        }
        if col >= ncols {
            return Err(PltError::InvalidColumn { col, ncols });
        }
        proof {
            assert(row * ncols + col < nrows * ncols) by (nonlinear_arith)
                requires col < ncols, row < nrows;
            assert((row * ncols + col) / ncols as int == row && (row * ncols + col) % ncols as int == col)
                by (nonlinear_arith)
                requires col < ncols, ncols > 0;
        }
        let area = cell_area_exec(row, col, nrows, ncols);
        let ghost old_cells = grid_cells(self.grid);
        self.grid.set(row, col, GridCell { subplot, area, filled: true });
        proof {
            assert(old_cells[row * ncols + col].area == area);
        }
        Ok(())
    }
}

/// The filled cells of a grid, in row order.
pub open spec fn filled_cells(cells: Seq<GridCell>) -> Seq<(Subplot, FractionalArea)> {
    cells.filter(|c: GridCell| c.filled).map_values(|c: GridCell| (c.subplot, c.area))
}

impl Layout for GridLayout {
    open spec fn placed(&self) -> Seq<(Subplot, FractionalArea)> {
        filled_cells(grid_cells(self.grid))
    }

    open spec fn layout_wf(&self) -> bool {
        self.wf()
    }

    fn subplots(self) -> (r: Vec<(Subplot, FractionalArea)>) {
        let cells = self.grid.into_cells();
        let ghost all = cells@;
        let total = cells.len();
        let mut cells = cells;
        let mut r: Vec<(Subplot, FractionalArea)> = Vec::new();
        let mut taken: usize = 0;
        while cells.len() > 0
            invariant
                taken + cells@.len() == all.len(),
                forall|k: int| 0 <= k < cells@.len() ==> #[trigger] cells@[k] == all[taken + k],
                forall|k: int| 0 <= k < all.len() ==> (#[trigger] all[k]).subplot.wf(),
                r@ == filled_cells(all.subrange(0, taken as int)),
                all.len() == total,
                forall|i: int| 0 <= i < r@.len() ==> (#[trigger] r@[i]).0.wf(),
            decreases cells@.len(),
        {
            let c = cells.remove(0);
            proof {
                assert(all.subrange(0, taken + 1) == all.subrange(0, taken as int).push(c));
                all.subrange(0, taken as int).lemma_filter_push(c, |c: GridCell| c.filled);
            }
            if c.filled {
                r.push((c.subplot, c.area));
            }
            proof {
                let f = all.subrange(0, taken as int).filter(|c: GridCell| c.filled);
                if c.filled {
                    assert(f.push(c).map_values(|c: GridCell| (c.subplot, c.area)) =~= f.map_values(
                        |c: GridCell| (c.subplot, c.area),
                    ).push((c.subplot, c.area)));
                }
            }
            taken = taken + 1;
        }
        proof {
            assert(all.subrange(0, all.len() as int) == all);
        }
        r
    }
}

} // verus!
