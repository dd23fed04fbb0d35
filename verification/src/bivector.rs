//! The antisymmetric matrix of a bivector in four dimensions: which component stands in
//! which cell, and with which sign.

use vstd::prelude::*;

verus! {

/// The six basis planes.
#[derive(Copy, Clone, Debug, PartialEq, Eq, Structural)]
pub enum Plane4 {
    Xy,
    Xz,
    Xw,
    Yz,
    Yw,
    Zw,
}

/// What a cell shows.
#[derive(Copy, Clone, Debug, PartialEq, Eq, Structural)]
pub enum Cell {
    /// The diagonal.
    Zero,
    /// The component of a plane; negated below the diagonal.
    Component { plane: Plane4, negated: bool },
}

/// The plane of the axes `row` and `col`, for `row < col`.
pub open spec fn plane_of(row: int, col: int) -> Plane4 {
    if row == 0 {
        if col == 1 {
            Plane4::Xy
        } else if col == 2 {
            Plane4::Xz
        } else {
            Plane4::Xw
        }
    } else if row == 1 {
        if col == 2 {
            Plane4::Yz
        } else {
            Plane4::Yw
        }
    } else {
        Plane4::Zw
    }
}

/// What stands in a cell.
pub open spec fn cell_at(row: int, col: int) -> Cell {
    if row == col {
        Cell::Zero
    } else if row < col {
        Cell::Component { plane: plane_of(row, col), negated: false }
    } else {
        Cell::Component { plane: plane_of(col, row), negated: true }
    }
}

/// Upper-triangle accessor.
pub fn upper_pair(row: usize, col: usize) -> (r: Plane4)
    requires
        row < col < 4,
    ensures
        r == plane_of(row as int, col as int),
{
    if row == 0 {
        if col == 1 {
            Plane4::Xy
        } else if col == 2 {
            Plane4::Xz
        } else {
            Plane4::Xw
        }
    } else if row == 1 {
        if col == 2 {
            Plane4::Yz
        } else {
            Plane4::Yw
        }
    } else {
        Plane4::Zw
    }
}

/// What to show in cell `(row, col)`.
pub fn cell(row: usize, col: usize) -> (r: Cell)
    requires
        row < 4,
        col < 4,
    ensures
        r == cell_at(row as int, col as int),
{
    if row == col {
        Cell::Zero
    } else if row < col {
        Cell::Component { plane: upper_pair(row, col), negated: false }
    } else {
        Cell::Component { plane: upper_pair(col, row), negated: true }
    }
}

/// The matrix is antisymmetric: mirrored cells show the same component with opposite signs,
/// and the diagonal is zero.
pub proof fn matrix_is_antisymmetric(row: int, col: int)
    requires
        0 <= row < 4,
        0 <= col < 4,
    ensures
        cell_at(row, row) is Zero,
        row != col ==> cell_at(row, col) is Component && cell_at(col, row) is Component && cell_at(
            row,
            col,
        )->plane == cell_at(col, row)->plane && cell_at(row, col)->negated != cell_at(
            col,
            row,
        )->negated,
{
}

/// Each plane lights one cell above the diagonal and its mirror, and no other.
pub proof fn each_plane_has_its_own_cell(a: int, b: int, c: int, d: int)
    requires
        0 <= a < b < 4,
        0 <= c < d < 4,
        plane_of(a, b) == plane_of(c, d),
    ensures
        a == c,
        b == d,
{
}

/// A plane is the one of its two axes: rows and columns count X, Y, Z and W, and the entry above
/// the diagonal is the plane's own, that below it the opposite.
pub proof fn planes_are_those_of_their_axes()
    ensures
        forall|row: usize, col: usize, r: Plane4| #[trigger]
            call_ensures(upper_pair, (row, col), r) && row < col < 4 ==> {
                &&& r is Xy <==> row == 0 && col == 1
                &&& r is Xz <==> row == 0 && col == 2
                &&& r is Xw <==> row == 0 && col == 3
                &&& r is Yz <==> row == 1 && col == 2
                &&& r is Yw <==> row == 1 && col == 3
                &&& r is Zw <==> row == 2 && col == 3
            },
        forall|row: usize, col: usize, r: Cell, plane: Plane4|
            #![trigger call_ensures(cell, (row, col), r), call_ensures(
                upper_pair,
                (row, col),
                plane,
            )]
            call_ensures(cell, (row, col), r) && call_ensures(upper_pair, (row, col), plane) && row
                < col < 4 ==> r is Component && r->plane == plane && !r->negated,
        forall|row: usize, col: usize, r: Cell, plane: Plane4|
            #![trigger call_ensures(cell, (row, col), r), call_ensures(
                upper_pair,
                (col, row),
                plane,
            )]
            call_ensures(cell, (row, col), r) && call_ensures(upper_pair, (col, row), plane) && col
                < row < 4 ==> r is Component && r->plane == plane && r->negated,
        forall|row: usize, r: Cell| #[trigger]
            call_ensures(cell, (row, row), r) && row < 4 ==> r is Zero,
{
}

} // verus!
