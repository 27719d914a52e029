use crate::matrix::Matrix;
use crate::scalar::Scalar;
use crate::tuple::Tuple;
use vstd::prelude::*;

verus! {

impl Matrix {
    /// Whether the four rows of `self` hold the given entries.
    pub open spec fn has_rows(
        self,
        r0: (Scalar, Scalar, Scalar, Scalar),
        r1: (Scalar, Scalar, Scalar, Scalar),
        r2: (Scalar, Scalar, Scalar, Scalar),
        r3: (Scalar, Scalar, Scalar, Scalar),
    ) -> bool {
        &&& self.at(0, 0) == r0.0 && self.at(0, 1) == r0.1 && self.at(0, 2) == r0.2 && self.at(0, 3)
            == r0.3
        &&& self.at(1, 0) == r1.0 && self.at(1, 1) == r1.1 && self.at(1, 2) == r1.2 && self.at(1, 3)
            == r1.3
        &&& self.at(2, 0) == r2.0 && self.at(2, 1) == r2.1 && self.at(2, 2) == r2.2 && self.at(2, 3)
            == r2.3
        &&& self.at(3, 0) == r3.0 && self.at(3, 1) == r3.1 && self.at(3, 2) == r3.2 && self.at(3, 3)
            == r3.3
    }

    /// The matrix that moves a point by `(x, y, z)`: the identity with the
    /// last column set.
    pub fn get_translation_matrix(x: Scalar, y: Scalar, z: Scalar) -> (r: Matrix)
        ensures
            r.has_rows(
                (Scalar::one(), Scalar::zero(), Scalar::zero(), x),
                (Scalar::zero(), Scalar::one(), Scalar::zero(), y),
                (Scalar::zero(), Scalar::zero(), Scalar::one(), z),
                (Scalar::zero(), Scalar::zero(), Scalar::zero(), Scalar::one()),
            ),
    {
        let o = Scalar::one();
        let n = Scalar::zero();
        Matrix { data: [[o, n, n, x], [n, o, n, y], [n, n, o, z], [n, n, n, o]] }
    }

    /// The matrix that scales by `x`, `y` and `z` along the axes: they
    /// stand on the diagonal.
    pub fn get_scaling_matrix(x: Scalar, y: Scalar, z: Scalar) -> (r: Matrix)
        ensures
            r.has_rows(
                (x, Scalar::zero(), Scalar::zero(), Scalar::zero()),
                (Scalar::zero(), y, Scalar::zero(), Scalar::zero()),
                (Scalar::zero(), Scalar::zero(), z, Scalar::zero()),
                (Scalar::zero(), Scalar::zero(), Scalar::zero(), Scalar::one()),
            ),
    {
        let o = Scalar::one();
        let n = Scalar::zero();
        Matrix { data: [[x, n, n, n], [n, y, n, n], [n, n, z, n], [n, n, n, o]] }
    }

    /// The rotation about the x axis by the angle whose cosine and sine are
    /// given.
    pub fn get_rotation_x_matrix(cos: Scalar, sin: Scalar) -> (r: Matrix)
        ensures
            r.has_rows(
                (Scalar::one(), Scalar::zero(), Scalar::zero(), Scalar::zero()),
                (Scalar::zero(), cos, sin.negated(), Scalar::zero()),
                (Scalar::zero(), sin, cos, Scalar::zero()),
                (Scalar::zero(), Scalar::zero(), Scalar::zero(), Scalar::one()),
            ),
    {
        let o = Scalar::one();
        let n = Scalar::zero();
        Matrix { data: [[o, n, n, n], [n, cos, sin.neg(), n], [n, sin, cos, n], [n, n, n, o]] }
    }

    /// The rotation about the y axis by the angle whose cosine and sine are
    /// given.
    pub fn get_rotation_y_matrix(cos: Scalar, sin: Scalar) -> (r: Matrix)
        ensures
            r.has_rows(
                (cos, Scalar::zero(), sin, Scalar::zero()),
                (Scalar::zero(), Scalar::one(), Scalar::zero(), Scalar::zero()),
                (sin.negated(), Scalar::zero(), cos, Scalar::zero()),
                (Scalar::zero(), Scalar::zero(), Scalar::zero(), Scalar::one()),
            ),
    {
        let o = Scalar::one();
        let n = Scalar::zero();
        Matrix { data: [[cos, n, sin, n], [n, o, n, n], [sin.neg(), n, cos, n], [n, n, n, o]] }
    }

    /// The rotation about the z axis by the angle whose cosine and sine are
    /// given.
    pub fn get_rotation_z_matrix(cos: Scalar, sin: Scalar) -> (r: Matrix)
        ensures
            r.has_rows(
                (cos, sin.negated(), Scalar::zero(), Scalar::zero()),
                (sin, cos, Scalar::zero(), Scalar::zero()),
                (Scalar::zero(), Scalar::zero(), Scalar::one(), Scalar::zero()),
                (Scalar::zero(), Scalar::zero(), Scalar::zero(), Scalar::one()),
            ),
    {
        let o = Scalar::one();
        let n = Scalar::zero();
        Matrix { data: [[cos, sin.neg(), n, n], [sin, cos, n, n], [n, n, o, n], [n, n, n, o]] }
    }

    /// The shear in which each coordinate moves in proportion to the two
    /// others: `xy` is how far x moves for each unit of y, and so on.
    pub fn get_shearing_matrix(
        xy: Scalar,
        xz: Scalar,
        yx: Scalar,
        yz: Scalar,
        zx: Scalar,
        zy: Scalar,
    ) -> (r: Matrix)
        ensures
            r.has_rows(
                (Scalar::one(), xy, xz, Scalar::zero()),
                (yx, Scalar::one(), yz, Scalar::zero()),
                (zx, zy, Scalar::one(), Scalar::zero()),
                (Scalar::zero(), Scalar::zero(), Scalar::zero(), Scalar::one()),
            ),
    {
        let o = Scalar::one();
        let n = Scalar::zero();
        Matrix { data: [[o, xy, xz, n], [yx, o, yz, n], [zx, zy, o, n], [n, n, n, o]] }
    }

    /// The two factors of the view transform of an eye at `from`, whose
    /// orthonormal frame is `left`, `true_up` and `forward`: the
    /// orientation, with rows `left`, `true_up` and `forward` negated, and
    /// the translation that moves the eye to the origin. Their product, in
    /// this order, is the view transform.
    pub fn get_view_transform(from: Tuple, left: Tuple, true_up: Tuple, forward: Tuple) -> (r: (
        Matrix,
        Matrix,
    ))
        ensures
            r.0.has_rows(
                (left.x, left.y, left.z, Scalar::zero()),
                (true_up.x, true_up.y, true_up.z, Scalar::zero()),
                (forward.x.negated(), forward.y.negated(), forward.z.negated(), Scalar::zero()),
                (Scalar::zero(), Scalar::zero(), Scalar::zero(), Scalar::one()),
            ),
            r.1.has_rows(
                (Scalar::one(), Scalar::zero(), Scalar::zero(), from.x.negated()),
                (Scalar::zero(), Scalar::one(), Scalar::zero(), from.y.negated()),
                (Scalar::zero(), Scalar::zero(), Scalar::one(), from.z.negated()),
                (Scalar::zero(), Scalar::zero(), Scalar::zero(), Scalar::one()),
            ),
    {
        let o = Scalar::one();
        let n = Scalar::zero();
        let orientation = Matrix {
            data: [
                [left.x, left.y, left.z, n],
                [true_up.x, true_up.y, true_up.z, n],
                [forward.x.neg(), forward.y.neg(), forward.z.neg(), n],
                [n, n, n, o],
            ],
        };
        (orientation, Matrix::get_translation_matrix(from.x.neg(), from.y.neg(), from.z.neg()))
    }
}

} // verus!
