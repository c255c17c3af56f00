//! A small dense matrix over fixed-point scalars with explicit logical
//! width/height on a fixed 4x4 backing store, the one multiply operation the
//! pipeline needs, and the vertex <-> 3x1-matrix bridge.
//!
//! Following the backing store's convention, `elem[x][y]` holds the cell in
//! column `x`, row `y`.

use vstd::prelude::*;
use crate::fixed::{fx_add, fx_mul, Fixed};
use crate::geometry::Vector3D;

verus! {

broadcast use vstd::array::group_array_axioms;

/// A dense matrix with logical dimensions `width` x `height` inside a fixed
/// 4x4 backing grid.  Cells outside the logical dimensions are zero.
#[derive(Clone, Copy, Debug)]
pub struct Matrix {
    pub width: usize,
    pub height: usize,
    pub elem: [[Fixed; 4]; 4],
}

/// Raw value of the cell in column `x`, row `y`.
pub open spec fn mval(m: Matrix, x: int, y: int) -> int {
    m.elem[x][y].raw as int
}

/// The logical dimensions fit the fixed backing store.
pub open spec fn mat_dims_ok(m: Matrix) -> bool {
    m.width <= 4 && m.height <= 4
}

/// The raw value of cell (x, y) of a matrix product, as the fixed-point dot
/// product of the first `n` entries of row `y` of `a` with column `x` of `b`,
/// accumulated left to right.
pub open spec fn dot_raw(a: Matrix, b: Matrix, x: int, y: int, n: int) -> int
    decreases n,
{
    if n <= 0 {
        0
    } else {
        fx_add(dot_raw(a, b, x, y, n - 1), fx_mul(mval(a, n - 1, y), mval(b, x, n - 1)))
    }
}

impl Matrix {
    /// A zero matrix of logical dimensions `h` x `w`.
    pub fn new(h: usize, w: usize) -> (m: Matrix)
        requires
            h <= 4,
            w <= 4,
        ensures
            m.width == w,
            m.height == h,
            forall|x: int, y: int| 0 <= x < 4 && 0 <= y < 4 ==> mval(m, x, y) == 0,
    {
        let z = Fixed::zero();
        let row = [z, z, z, z];
        Matrix { width: w, height: h, elem: [row, row, row, row] }
    }

    /// The 3x1 matrix holding a vertex; the only bridge from vectors into
    /// matrix form.
    pub fn from_vertex(v: Vector3D) -> (m: Matrix)
        ensures
            m.width == 3,
            m.height == 1,
            mval(m, 0, 0) == v.x.raw as int,
            mval(m, 1, 0) == v.y.raw as int,
            mval(m, 2, 0) == v.z.raw as int,
            forall|x: int, y: int|
                0 <= x < 4 && 0 <= y < 4 && !(y == 0 && x < 3) ==> mval(m, x, y) == 0,
    {
        let z = Fixed::zero();
        Matrix {
            width: 3,
            height: 1,
            elem: [[v.x, z, z, z], [v.y, z, z, z], [v.z, z, z, z], [z, z, z, z]],
        }
    }

    /// Reads a vertex back out of a 3x1 matrix; the only bridge from matrix
    /// form back to vectors.
    pub fn to_vertex(m: Matrix) -> (v: Vector3D)
        ensures
            v.x == m.elem[0][0],
            v.y == m.elem[1][0],
            v.z == m.elem[2][0],
    {
        Vector3D { x: m.elem[0][0], y: m.elem[1][0], z: m.elem[2][0] }
    }
}

/// Writes one cell of the backing grid, leaving every other cell unchanged.
fn mat_set(m: &mut Matrix, x: usize, y: usize, v: Fixed)
    requires
        x < 4,
        y < 4,
    ensures
        final(m).width == old(m).width,
        final(m).height == old(m).height,
        forall|i: int, j: int|
            0 <= i < 4 && 0 <= j < 4 ==> mval(*final(m), i, j) == if i == x && j == y {
                v.raw as int
            } else {
                mval(*old(m), i, j)
            },
{
    let mut row: [Fixed; 4] = m.elem[x];
    row[y] = v;
    m.elem[x] = row;
}

impl View for Matrix {
    type V = Matrix;

    open spec fn view(&self) -> Matrix {
        *self
    }
}

/// The matrix product operation.
pub trait MatrixMath: View<V = Matrix> {
    /// Matrix multiply: only defined when the shared dimension agrees, and
    /// every call site must establish that — mismatched dimensions are a
    /// broken invariant, not a recoverable condition.  Each cell of the
    /// product is the fixed-point dot product of the matching row/column
    /// pair.
    fn mul(&self, rhs: Matrix) -> (product: Matrix)
        requires
            mat_dims_ok(self@),
            mat_dims_ok(rhs),
            self@.width == rhs.height,
        ensures
            product.width == rhs.width,
            product.height == self@.height,
            forall|x: int, y: int|
                0 <= x < 4 && 0 <= y < 4 ==> mval(product, x, y) == if x < rhs.width && y
                    < self@.height {
                    dot_raw(self@, rhs, x, y, self@.width as int)
                } else {
                    0
                },
    ;
}

impl MatrixMath for Matrix {
    fn mul(&self, rhs: Matrix) -> (product: Matrix) {
        let mut product = Matrix::new(self.height, rhs.width);
        let mut x: usize = 0;
        while x < product.width
            invariant
                mat_dims_ok(*self),
                mat_dims_ok(rhs),
                self.width == rhs.height,
                product.width == rhs.width,
                product.height == self.height,
                x <= product.width,
                forall|i: int, j: int|
                    0 <= i < 4 && 0 <= j < 4 ==> mval(product, i, j) == if i < x && j
                        < self.height {
                        dot_raw(*self, rhs, i, j, self.width as int)
                    } else {
                        0
                    },
            decreases product.width - x,
        {
            let mut y: usize = 0;
            while y < product.height
                invariant
                    mat_dims_ok(*self),
                    mat_dims_ok(rhs),
                    self.width == rhs.height,
                    product.width == rhs.width,
                    product.height == self.height,
                    x < product.width,
                    y <= product.height,
                    forall|i: int, j: int|
                        0 <= i < 4 && 0 <= j < 4 ==> mval(product, i, j) == if (i < x && j
                            < self.height) || (i == x && j < y) {
                            dot_raw(*self, rhs, i, j, self.width as int)
                        } else {
                            0
                        },
                decreases product.height - y,
            {
                let mut acc = Fixed::zero();
                let mut i: usize = 0;
                while i < self.width
                    invariant
                        mat_dims_ok(*self),
                        mat_dims_ok(rhs),
                        self.width == rhs.height,
                        x < 4,
                        y < 4,
                        i <= self.width,
                        acc.raw as int == dot_raw(*self, rhs, x as int, y as int, i as int),
                    decreases self.width - i,
                {
                    acc = acc.add(self.elem[i][y].mul(rhs.elem[x][i]));
                    i = i + 1;
                }
                mat_set(&mut product, x, y, acc);
                y = y + 1;
            }
            x = x + 1;
        }
        product
    }
}

} // verus!
