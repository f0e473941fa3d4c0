//! Fixed-size cell storage over `array2d::Array2D`, with bounds-checked access.
use vstd::prelude::*;

verus! {

#[verifier::external_type_specification]
#[verifier::external_body]
#[verifier::reject_recursive_types(T)]
pub struct ExArray2D<T>(array2d::Array2D<T>);

#[verifier::external_type_specification]
#[verifier::external_body]
pub struct ExArray2DError(array2d::Error);

/// The rows of an array of cells, each row in column order.
pub uninterp spec fn array_rows(a: array2d::Array2D<(bool, bool)>) -> Seq<Seq<(bool, bool)>>;

/// The number of columns that an array of cells was made with.
pub uninterp spec fn array_width(a: array2d::Array2D<(bool, bool)>) -> nat;

/// Relies on `Array2D::filled_with`: `num_rows` rows of `num_columns` copies of
/// `element`; it computes `num_rows * num_columns`, which must not overflow.
#[verifier::external_body]
fn array_filled(element: (bool, bool), num_rows: usize, num_columns: usize) -> (r: array2d::Array2D<(bool, bool)>)
    requires
        num_rows * num_columns <= usize::MAX,
    ensures
        array_rows(r) == Seq::new(num_rows as nat, |i: int| Seq::new(num_columns as nat, |j: int| element)),
        array_width(r) == num_columns,
{
    array2d::Array2D::filled_with(element, num_rows, num_columns)
}

/// Relies on `Array2D::column_len`: the number of rows.
#[verifier::external_body]
fn array_num_rows(a: &array2d::Array2D<(bool, bool)>) -> (r: usize)
    ensures
        r == array_rows(*a).len(),
{
    a.column_len()
}

/// Relies on `Array2D::row_len`: the number of columns.
#[verifier::external_body]
fn array_num_columns(a: &array2d::Array2D<(bool, bool)>) -> (r: usize)
    ensures
        r == array_width(*a),
{
    a.row_len()
}

/// Relies on `Array2D::get`: the element at `(row, column)` when both are in
/// bounds, `None` otherwise.
#[verifier::external_body]
fn array_get(a: &array2d::Array2D<(bool, bool)>, row: usize, column: usize) -> (r: Option<(bool, bool)>)
    ensures
        row < array_rows(*a).len() && column < array_width(*a) ==> r == Some(array_rows(*a)[row as int][column as int]),
        !(row < array_rows(*a).len() && column < array_width(*a)) ==> r is None,
{
    a.get(row, column).copied()
}

/// Relies on `Array2D::set`: in bounds it replaces the element and returns
/// `Ok`; out of bounds it returns `IndicesOutOfBounds` and changes nothing.
#[verifier::external_body]
fn array_set(a: &mut array2d::Array2D<(bool, bool)>, row: usize, column: usize, element: (bool, bool)) -> (r: Result<(), array2d::Error>)
    ensures
        array_width(*final(a)) == array_width(*old(a)),
        row < array_rows(*old(a)).len() && column < array_width(*old(a)) ==> r is Ok
            && array_rows(*final(a)) == array_rows(*old(a)).update(row as int, array_rows(*old(a))[row as int].update(column as int, element)),
        !(row < array_rows(*old(a)).len() && column < array_width(*old(a))) ==> r is Err && array_rows(*final(a)) == array_rows(*old(a)),
{
    a.set(row, column, element)
}

/// One cell of the grid.
#[derive(Clone, Copy, Debug, PartialEq, Eq, Structural)]
pub struct Cell {
    /// A particle rests here.
    pub occupied: bool,
    /// The cell took part in a movement during the current tick.
    pub settled: bool,
}

/// A cell as the pair (occupied, settled).
pub open spec fn cell_pair(c: Cell) -> (bool, bool) {
    (c.occupied, c.settled)
}

/// Every row of `g` holds `width` cells.
pub open spec fn rectangular(g: Seq<Seq<(bool, bool)>>, width: nat) -> bool {
    forall|i: int| 0 <= i < g.len() ==> #[trigger] g[i].len() == width
}

/// `g` with the cell at `(r, c)` replaced by `v`.
pub open spec fn put(g: Seq<Seq<(bool, bool)>>, r: int, c: int, v: (bool, bool)) -> Seq<Seq<(bool, bool)>> {
    g.update(r, g[r].update(c, v))
}

/// A rectangular grid of cells whose dimensions never change.
pub struct Grid {
    cells: array2d::Array2D<(bool, bool)>,
}

impl Grid {
    /// The rows of the grid, each a sequence of (occupied, settled) pairs.
    pub closed spec fn view(&self) -> Seq<Seq<(bool, bool)>> {
        array_rows(self.cells)
    }

    /// The number of columns.
    pub closed spec fn width(&self) -> nat {
        array_width(self.cells)
    }

    pub open spec fn wf(&self) -> bool {
        &&& rectangular(self@, self.width())
        &&& self@.len() <= usize::MAX
        &&& self.width() <= usize::MAX
    }

    /// An empty grid of `rows` rows and `columns` columns.
    pub fn new(rows: usize, columns: usize) -> (g: Grid)
        requires
            rows * columns <= usize::MAX,
        ensures
            g.wf(),
            g@.len() == rows,
            g.width() == columns,
            forall|i: int, j: int| 0 <= i < rows && 0 <= j < columns ==> #[trigger] g@[i][j] == (false, false),
    {
        Grid { cells: array_filled((false, false), rows, columns) }
    }

    /// The number of rows.
    pub fn rows(&self) -> (r: usize)
        ensures
            r == self@.len(),
    {
        array_num_rows(&self.cells)
    }

    /// The number of columns.
    pub fn columns(&self) -> (r: usize)
        ensures
            r == self.width(),
    {
        array_num_columns(&self.cells)
    }

    /// The cell at `(row, col)`, or `None` when it lies outside the grid.
    pub fn get(&self, row: usize, col: usize) -> (r: Option<Cell>)
        ensures
            row < self@.len() && col < self.width() ==> r is Some && cell_pair(r->0) == self@[row as int][col as int],
            !(row < self@.len() && col < self.width()) ==> r is None,
    {
        match array_get(&self.cells, row, col) {
            Some(p) => Some(Cell { occupied: p.0, settled: p.1 }),
            None => None,
        }
    }

    /// Writes `cell` at `(row, col)`; returns false, changing nothing, when
    /// the position lies outside the grid.
    pub fn set(&mut self, row: usize, col: usize, cell: Cell) -> (r: bool)
        ensures
            final(self).width() == old(self).width(),
            r == (row < old(self)@.len() && col < old(self).width()),
            r ==> final(self)@ == put(old(self)@, row as int, col as int, cell_pair(cell)),
            !r ==> final(self)@ == old(self)@,
            old(self).wf() ==> final(self).wf(),
    {
        self.put_pair(row, col, (cell.occupied, cell.settled))
    }

    pub(crate) fn put_pair(&mut self, row: usize, col: usize, v: (bool, bool)) -> (r: bool)
        ensures
            final(self).width() == old(self).width(),
            r == (row < old(self)@.len() && col < old(self).width()),
            r ==> final(self)@ == put(old(self)@, row as int, col as int, v),
            !r ==> final(self)@ == old(self)@,
            old(self).wf() ==> final(self).wf(),
    {
        let res = array_set(&mut self.cells, row, col, v);
        proof {
            if old(self).wf() && res is Ok {
                assert forall|i: int| 0 <= i < self@.len() implies #[trigger] self@[i].len() == self.width() by {
                    assert(old(self)@[i].len() == old(self).width());
                }
            }
        }
        match res {
            Ok(()) => true,
            Err(_) => false,
        }
    }

    pub(crate) fn get_pair(&self, row: usize, col: usize) -> (r: Option<(bool, bool)>)
        ensures
            row < self@.len() && col < self.width() ==> r == Some(self@[row as int][col as int]),
            !(row < self@.len() && col < self.width()) ==> r is None,
    {
        array_get(&self.cells, row, col)
    }
}

} // verus!
