use vstd::prelude::*;

verus! {

/// The symbol of a cell that the camera and rays pass through.
pub const OPEN_SYMBOL: char = '.';

/// What a cell of the grid holds.
#[derive(Clone, Copy, Debug, PartialEq, Eq, Structural)]
pub enum Cell {
    /// Passable floor.
    Open,
    /// A blocking tile, named by its symbol.
    Tile(char),
}

/// Errors of map construction and lookup.
#[derive(Clone, Copy, Debug, PartialEq, Eq, Structural)]
pub enum MapError {
    /// A coordinate lies outside the grid.
    OutOfBounds,
    /// The rows given do not all have the length of the first one.
    MalformedMap,
}

/// The cell that a symbol stands for.
pub open spec fn cell_of(c: char) -> Cell {
    if c == OPEN_SYMBOL {
        Cell::Open
    } else {
        Cell::Tile(c)
    }
}

/// Whether every row has the length of the first.
pub open spec fn rows_rectangular(rows: Seq<Seq<char>>) -> bool {
    forall|i: int| 0 <= i < rows.len() ==> #[trigger] rows[i].len() == rows[0].len()
}

/// A rectangular grid of cell symbols, stored row by row.
pub struct GridMap {
    width: usize,
    height: usize,
    rows: Vec<Vec<char>>,
}

impl GridMap {
    /// The symbols, row by row.
    pub closed spec fn symbols(&self) -> Seq<Seq<char>> {
        self.rows@.map_values(|r: Vec<char>| r@)
    }

    pub closed spec fn spec_width(&self) -> int {
        self.width as int
    }

    pub closed spec fn spec_height(&self) -> int {
        self.height as int
    }

    /// Every row has `width` symbols and there are `height` rows.
    pub closed spec fn wf(&self) -> bool {
        &&& self.rows@.len() == self.height
        &&& forall|i: int| 0 <= i < self.rows@.len() ==> #[trigger] self.rows@[i]@.len() == self.width
    }

    /// Whether `(x, y)` names a cell of the grid.
    pub open spec fn in_bounds(&self, x: int, y: int) -> bool {
        0 <= x < self.spec_width() && 0 <= y < self.spec_height()
    }

    /// The symbol at `(x, y)`, column `x` of row `y`.
    pub open spec fn symbol_at(&self, x: int, y: int) -> char {
        self.symbols()[y][x]
    }

    /// The cell at `(x, y)`, for a coordinate of the grid.
    pub open spec fn cell_at(&self, x: int, y: int) -> Cell {
        cell_of(self.symbol_at(x, y))
    }

    /// Whether `(x, y)` is a cell of the grid that can be entered.
    pub open spec fn is_open_at(&self, x: int, y: int) -> bool {
        self.in_bounds(x, y) && self.cell_at(x, y) == Cell::Open
    }

    proof fn lemma_symbols(&self)
        requires
            self.wf(),
        ensures
            self.symbols().len() == self.spec_height(),
            forall|i: int|
                0 <= i < self.spec_height() ==> (#[trigger] self.symbols()[i]).len()
                    == self.spec_width(),
    {
        assert forall|i: int| 0 <= i < self.spec_height() implies (#[trigger] self.symbols()[i]).len()
            == self.spec_width() by {
            assert(self.rows@[i]@.len() == self.width);
        }
    }

    /// Builds a map from its rows; fails with `MalformedMap` when a row's
    /// length differs from the first row's.
    pub fn from_rows(rows: Vec<Vec<char>>) -> (r: Result<GridMap, MapError>)
        ensures
            rows_rectangular(rows@.map_values(|v: Vec<char>| v@)) <==> r.is_ok(),
            r.is_err() ==> r == Err::<GridMap, MapError>(MapError::MalformedMap),
            r matches Ok(m) ==> {
                &&& m.wf()
                &&& m.symbols() == rows@.map_values(|v: Vec<char>| v@)
                &&& m.spec_height() == rows@.len()
                &&& m.spec_width() == if rows@.len() == 0 { 0 } else { rows@[0]@.len() as int }
            },
    {
        let ghost seqs = rows@.map_values(|v: Vec<char>| v@);
        let height = rows.len();
        let width = if height == 0 {
            0
        } else {
            rows[0].len()
        };
        let mut i: usize = 0;
        while i < height
            invariant
                height == rows@.len(),
                i <= height,
                seqs == rows@.map_values(|v: Vec<char>| v@),
                height > 0 ==> width == rows@[0]@.len(),
                forall|j: int| 0 <= j < i ==> #[trigger] rows@[j]@.len() == width,
            decreases height - i,
        {
            if rows[i].len() != width {
                proof {
                    assert(seqs[i as int].len() != seqs[0].len());
                }
                return Err(MapError::MalformedMap);
            }
            i = i + 1;
        }
        let m = GridMap { width, height, rows };
        proof {
            assert forall|j: int| 0 <= j < seqs.len() implies #[trigger] seqs[j].len()
                == seqs[0].len() by {
                assert(rows@[j]@.len() == width);
            }
            assert(m.symbols() =~= seqs);
        }
        Ok(m)
    }

    /// Number of columns.
    pub fn width(&self) -> (r: usize)
        ensures
            r == self.spec_width(),
    {
        self.width
    }

    /// Number of rows.
    pub fn height(&self) -> (r: usize)
        ensures
            r == self.spec_height(),
    {
        self.height
    }

    /// The cell at `(x, y)`, or `OutOfBounds` outside the grid.
    pub fn get(&self, x: i64, y: i64) -> (r: Result<Cell, MapError>)
        requires
            self.wf(),
        ensures
            self.in_bounds(x as int, y as int) ==> r == Ok::<Cell, MapError>(
                self.cell_at(x as int, y as int),
            ),
            !self.in_bounds(x as int, y as int) ==> r == Err::<Cell, MapError>(
                MapError::OutOfBounds,
            ),
    {
        if x < 0 || y < 0 || x as u64 >= self.width as u64 || y as u64 >= self.height as u64 {
            return Err(MapError::OutOfBounds);
        }
        proof {
            self.lemma_symbols();
        }
        let c = self.rows[y as usize][x as usize];
        if c == OPEN_SYMBOL {
            Ok(Cell::Open)
        } else {
            Ok(Cell::Tile(c))
        }
    }
}

/// Whether a cell blocks movement and rays.
pub fn is_blocking(cell: Cell) -> (r: bool)
    ensures
        r <==> cell != Cell::Open,
{
    match cell {
        Cell::Open => false,
        Cell::Tile(_) => true,
    }
}

} // verus!
