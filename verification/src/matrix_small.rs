use crate::scalar::Scalar;
use vstd::prelude::*;

verus! {

/// Index in the larger matrix of line `i` of the matrix that is left when
/// line `removed` is deleted: lines before it keep their index, the others
/// move up by one.
pub open spec fn spec_skip(i: int, removed: int) -> int {
    if i < removed {
        i
    } else {
        i + 1
    }
}

/// Executable [`spec_skip`].
pub fn skip(i: usize, removed: usize) -> (r: usize)
    requires
        i < usize::MAX,
    ensures
        r == spec_skip(i as int, removed as int),
        i <= r <= i + 1,
{
    if i < removed {
        i
    } else {
        i + 1
    }
}

/// A 2×2 grid of numbers, row by row.
///
/// The derived `==` compares bit patterns; equality within the tolerance is
/// [`Scalar::is_negligible`] of the difference of each pair of entries.
#[derive(Clone, Copy, Debug, PartialEq, Eq)]
pub struct Matrix2 {
    pub data: [[Scalar; 2]; 2],
}

/// A 3×3 grid of numbers, row by row.
///
/// The derived `==` compares bit patterns; equality within the tolerance is
/// [`Scalar::is_negligible`] of the difference of each pair of entries.
#[derive(Clone, Copy, Debug, PartialEq, Eq)]
pub struct Matrix3 {
    pub data: [[Scalar; 3]; 3],
}

impl Matrix2 {
    /// The entry in row `row` and column `col`.
    pub open spec fn at(self, row: int, col: int) -> Scalar {
        self.data[row][col]
    }

    /// The matrix of zeros.
    pub fn new() -> (r: Matrix2)
        ensures
            forall|i: int, j: int| 0 <= i < 2 && 0 <= j < 2 ==> r.at(i, j) == Scalar::zero(),
    {
        let z = Scalar::zero();
        Matrix2 { data: [[z, z], [z, z]] }
    }

    /// Reads one entry.
    pub fn get(&self, row: usize, col: usize) -> (r: Scalar)
        requires
            row < 2,
            col < 2,
        ensures
            r == self.at(row as int, col as int),
    {
        self.data[row][col]
    }
}

impl Matrix3 {
    /// The entry in row `row` and column `col`.
    pub open spec fn at(self, row: int, col: int) -> Scalar {
        self.data[row][col]
    }

    /// The matrix of zeros.
    pub fn new() -> (r: Matrix3)
        ensures
            forall|i: int, j: int| 0 <= i < 3 && 0 <= j < 3 ==> r.at(i, j) == Scalar::zero(),
    {
        let z = Scalar::zero();
        Matrix3 { data: [[z, z, z], [z, z, z], [z, z, z]] }
    }

    /// Reads one entry.
    pub fn get(&self, row: usize, col: usize) -> (r: Scalar)
        requires
            row < 3,
            col < 3,
        ensures
            r == self.at(row as int, col as int),
    {
        self.data[row][col]
    }

    /// The cofactor of the entry in row `row_ind` and column `col_ind`,
    /// from its minor: the minor itself, negated where row and column are
    /// of different parity.
    pub fn cofactor(row_ind: usize, col_ind: usize, minor: Scalar) -> (r: Scalar)
        ensures
            r == if (row_ind + col_ind) % 2 == 0 {
                minor
            } else {
                minor.negated()
            },
    {
        if row_ind % 2 == col_ind % 2 {
            minor
        } else {
            minor.neg()
        }
    }

    /// The 2×2 matrix left when row `row_ind` and column `col_ind` are
    /// deleted. An index past the last line deletes the last line.
    pub fn submatrix(&self, row_ind: usize, col_ind: usize) -> (r: Matrix2)
        ensures
            forall|i: int, j: int|
                0 <= i < 2 && 0 <= j < 2 ==> r.at(i, j) == self.at(
                    spec_skip(i, row_ind as int),
                    spec_skip(j, col_ind as int),
                ),
    {
        let r0: usize = skip(0, row_ind);
        let r1: usize = skip(1, row_ind);
        let c0: usize = skip(0, col_ind);
        let c1: usize = skip(1, col_ind);
        Matrix2 {
            data: [
                [self.data[r0][c0], self.data[r0][c1]],
                [self.data[r1][c0], self.data[r1][c1]],
            ],
        }
    }
}

impl Default for Matrix2 {
    /// The matrix of zeros.
    fn default() -> (r: Matrix2)
        ensures
            forall|i: int, j: int| 0 <= i < 2 && 0 <= j < 2 ==> r.at(i, j) == Scalar::zero(),
    {
        Matrix2::new()
    }
}

impl Default for Matrix3 {
    /// The matrix of zeros.
    fn default() -> (r: Matrix3)
        ensures
            forall|i: int, j: int| 0 <= i < 3 && 0 <= j < 3 ==> r.at(i, j) == Scalar::zero(),
    {
        Matrix3::new()
    }
}

} // verus!
