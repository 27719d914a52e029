use crate::matrix_small::{skip, spec_skip, Matrix3};
use crate::scalar::Scalar;
use vstd::prelude::*;

verus! {

/// A 4×4 grid of numbers, row by row.
///
/// The derived `==` compares the sixteen bit patterns. Two matrices are
/// equal within the tolerance where [`Scalar::is_negligible`] holds of the
/// difference of each pair of entries, which the caller computes.
#[derive(Clone, Copy, Debug, PartialEq, Eq)]
pub struct Matrix {
    pub data: [[Scalar; 4]; 4],
}

impl Matrix {
    /// The entry in row `row` and column `col`.
    pub open spec fn at(self, row: int, col: int) -> Scalar {
        self.data[row][col]
    }

    /// Whether every entry is zero but those on the diagonal, which are one.
    pub open spec fn is_identity(self) -> bool {
        forall|i: int, j: int|
            0 <= i < 4 && 0 <= j < 4 ==> self.at(i, j) == if i == j {
                Scalar::one()
            } else {
                Scalar::zero()
            }
    }

    /// Whether `self` is `other` mirrored across the diagonal.
    pub open spec fn is_transpose_of(self, other: Matrix) -> bool {
        forall|i: int, j: int| 0 <= i < 4 && 0 <= j < 4 ==> self.at(i, j) == other.at(j, i)
    }

    /// Whether both hold the same bit pattern in every entry.
    pub open spec fn same_entries(self, other: Matrix) -> bool {
        forall|i: int, j: int| 0 <= i < 4 && 0 <= j < 4 ==> self.at(i, j) == other.at(i, j)
    }

    /// The minor with the sign of its place: negated where row and column
    /// are of different parity.
    pub open spec fn signed_minor(row_ind: int, col_ind: int, minor: Scalar) -> Scalar {
        if (row_ind + col_ind) % 2 == 0 {
            minor
        } else {
            minor.negated()
        }
    }

    /// The matrix of zeros.
    pub fn new() -> (r: Matrix)
        ensures
            forall|i: int, j: int| 0 <= i < 4 && 0 <= j < 4 ==> r.at(i, j) == Scalar::zero(),
    {
        let z = Scalar::zero();
        Matrix { data: [[z, z, z, z], [z, z, z, z], [z, z, z, z], [z, z, z, z]] }
    }

    /// The identity matrix.
    #[allow(non_snake_case)]
    pub fn I() -> (r: Matrix)
        ensures
            r.is_identity(),
    {
        let z = Scalar::zero();
        let o = Scalar::one();
        Matrix { data: [[o, z, z, z], [z, o, z, z], [z, z, o, z], [z, z, z, o]] }
    }

    /// Reads one entry.
    pub fn get(&self, row: usize, col: usize) -> (r: Scalar)
        requires
            row < 4,
            col < 4,
        ensures
            r == self.at(row as int, col as int),
    {
        self.data[row][col]
    }

    /// A copy in which the entry in row `row` and column `col` is `value`.
    pub fn with(&self, row: usize, col: usize, value: Scalar) -> (r: Matrix)
        requires
            row < 4,
            col < 4,
        ensures
            forall|i: int, j: int|
                0 <= i < 4 && 0 <= j < 4 ==> r.at(i, j) == if i == row && j == col {
                    value
                } else {
                    self.at(i, j)
                },
    {
        let mut line: [Scalar; 4] = self.data[row];
        line[col] = value;
        let mut data: [[Scalar; 4]; 4] = self.data;
        data[row] = line;
        Matrix { data }
    }

    /// The matrix mirrored across its diagonal.
    pub fn transpose(&self) -> (r: Matrix)
        ensures
            r.is_transpose_of(*self),
    {
        let d = &self.data;
        Matrix {
            data: [
                [d[0][0], d[1][0], d[2][0], d[3][0]],
                [d[0][1], d[1][1], d[2][1], d[3][1]],
                [d[0][2], d[1][2], d[2][2], d[3][2]],
                [d[0][3], d[1][3], d[2][3], d[3][3]],
            ],
        }
    }

    /// The 3×3 matrix left when row `row_ind` and column `col_ind` are
    /// deleted. An index past the last line deletes the last line.
    pub fn submatrix(&self, row_ind: usize, col_ind: usize) -> (r: Matrix3)
        ensures
            forall|i: int, j: int|
                0 <= i < 3 && 0 <= j < 3 ==> r.at(i, j) == self.at(
                    spec_skip(i, row_ind as int),
                    spec_skip(j, col_ind as int),
                ),
    {
        let d = &self.data;
        let r0: usize = skip(0, row_ind);
        let r1: usize = skip(1, row_ind);
        let r2: usize = skip(2, row_ind);
        let c0: usize = skip(0, col_ind);
        let c1: usize = skip(1, col_ind);
        let c2: usize = skip(2, col_ind);
        Matrix3 {
            data: [
                [d[r0][c0], d[r0][c1], d[r0][c2]],
                [d[r1][c0], d[r1][c1], d[r1][c2]],
                [d[r2][c0], d[r2][c1], d[r2][c2]],
            ],
        }
    }

    /// The cofactor of the entry in row `row_ind` and column `col_ind`,
    /// from its minor: the determinant of the matrix left when that row and
    /// column are deleted.
    pub fn cofactor(row_ind: usize, col_ind: usize, minor: Scalar) -> (r: Scalar)
        ensures
            r == Matrix::signed_minor(row_ind as int, col_ind as int, minor),
    {
        if row_ind % 2 == col_ind % 2 {
            minor
        } else {
            minor.neg()
        }
    }

    /// Whether a matrix with this determinant has an inverse: the
    /// determinant is not zero within the tolerance.
    pub fn is_invertible(determinant: Scalar) -> (r: bool)
        ensures
            r == !determinant.negligible(),
    {
        !determinant.is_negligible()
    }
}

impl Default for Matrix {
    /// The matrix of zeros.
    fn default() -> (r: Matrix)
        ensures
            forall|i: int, j: int| 0 <= i < 4 && 0 <= j < 4 ==> r.at(i, j) == Scalar::zero(),
    {
        Matrix::new()
    }
}

/// Transposing twice gives the matrix back, entry by entry.
pub proof fn lemma_transpose_twice(m: Matrix, t: Matrix, tt: Matrix)
    requires
        t.is_transpose_of(m),
        tt.is_transpose_of(t),
    ensures
        tt.same_entries(m),
{
    assert forall|i: int, j: int| 0 <= i < 4 && 0 <= j < 4 implies tt.at(i, j) == m.at(i, j) by {
        assert(tt.at(i, j) == t.at(j, i));
        assert(t.at(j, i) == m.at(i, j));
    }
}

} // verus!
