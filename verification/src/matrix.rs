//! Dense rectangular matrices and the row-level compute engine.
//!
//! A `Matrix<T>` owns a grid of numeric elements together with its declared
//! `dimensions`. Every transform (`transpose`, `multiply`,
//! `multiply_by_transpose`, `hadamard_mult`, `addition`, `subtraction`)
//! validates dimensions first and then computes one output row at a time
//! (one output column, for `transpose`). The unit-of-work functions
//! (`product_row`, `transpose_column`, `hadamard_rows`, `sum_rows`,
//! `diff_rows`, ...) are public so that a caller may hand each unit to a
//! worker of its own and join before assembling the result; the contracts pin
//! every output cell as a function of the operand values alone, so no
//! schedule of the units can change the matrix that comes out.
use crate::numeric::Numeric;
use vstd::prelude::*;
use vstd::string::StringExecFns;

verus! {

/// A dense rectangular matrix: `dimensions` is `(rows, cols)` and `values`
/// holds `rows` rows of `cols` elements each.
pub struct Matrix<T> {
    pub dimensions: (usize, usize),
    pub values: Vec<Vec<T>>,
}

/// The rows of a grid of vectors, as a sequence of sequences.
pub open spec fn rows_view<T>(v: Seq<Vec<T>>) -> Seq<Seq<T>> {
    Seq::new(v.len(), |i: int| v[i]@)
}

/// Column `j` of a grid.
pub open spec fn column<T>(m: Seq<Seq<T>>, j: int) -> Seq<T> {
    Seq::new(m.len(), |i: int| m[i][j])
}

/// The transpose of a grid whose rows have length `cols`.
pub open spec fn transpose_view<T>(m: Seq<Seq<T>>, cols: nat) -> Seq<Seq<T>> {
    Seq::new(cols, |j: int| column(m, j))
}

/// The first `n` terms of the dot product, accumulated left to right from
/// zero: the `k`th step adds `a[k] * b[k]`.
pub open spec fn dot_prefix<T: Numeric>(a: Seq<T>, b: Seq<T>, n: int) -> T
    decreases n,
{
    if n <= 0 {
        T::zero_spec()
    } else {
        dot_prefix(a, b, n - 1).add_spec(a[n - 1].mul_spec(b[n - 1]))
    }
}

/// The dot product of `a` and `b`, accumulated in index order over the length
/// of `a`.
pub open spec fn dot<T: Numeric>(a: Seq<T>, b: Seq<T>) -> T {
    dot_prefix(a, b, a.len() as int)
}

/// Row `i` of the matrix product `a * b`, where `b` has `bcols` columns.
pub open spec fn product_row_view<T: Numeric>(
    a: Seq<Seq<T>>,
    b: Seq<Seq<T>>,
    bcols: nat,
    i: int,
) -> Seq<T> {
    Seq::new(bcols, |j: int| dot(a[i], column(b, j)))
}

/// The matrix product `a * b`, where `b` has `bcols` columns.
pub open spec fn product_view<T: Numeric>(a: Seq<Seq<T>>, b: Seq<Seq<T>>, bcols: nat) -> Seq<
    Seq<T>,
> {
    Seq::new(a.len(), |i: int| product_row_view(a, b, bcols, i))
}

/// Row `i` of the product of `a` with the transpose of `b`.
pub open spec fn product_transpose_row_view<T: Numeric>(
    a: Seq<Seq<T>>,
    b: Seq<Seq<T>>,
    i: int,
) -> Seq<T> {
    Seq::new(b.len(), |j: int| dot(a[i], b[j]))
}

/// The product of `a` with the transpose of `b`.
pub open spec fn product_transpose_view<T: Numeric>(a: Seq<Seq<T>>, b: Seq<Seq<T>>) -> Seq<
    Seq<T>,
> {
    Seq::new(a.len(), |i: int| product_transpose_row_view(a, b, i))
}

/// The elementwise product of two equally long rows.
pub open spec fn hadamard_row_view<T: Numeric>(x: Seq<T>, y: Seq<T>) -> Seq<T> {
    Seq::new(x.len(), |j: int| x[j].mul_spec(y[j]))
}

/// The elementwise (Hadamard) product of two equally shaped grids.
pub open spec fn hadamard_view<T: Numeric>(a: Seq<Seq<T>>, b: Seq<Seq<T>>) -> Seq<Seq<T>> {
    Seq::new(a.len(), |i: int| hadamard_row_view(a[i], b[i]))
}

/// The elementwise sum of two equally long rows.
pub open spec fn sum_row_view<T: Numeric>(x: Seq<T>, y: Seq<T>) -> Seq<T> {
    Seq::new(x.len(), |j: int| x[j].add_spec(y[j]))
}

/// The elementwise sum of two equally shaped grids.
pub open spec fn sum_view<T: Numeric>(a: Seq<Seq<T>>, b: Seq<Seq<T>>) -> Seq<Seq<T>> {
    Seq::new(a.len(), |i: int| sum_row_view(a[i], b[i]))
}

/// The elementwise difference of two equally long rows.
pub open spec fn diff_row_view<T: Numeric>(x: Seq<T>, y: Seq<T>) -> Seq<T> {
    Seq::new(x.len(), |j: int| x[j].sub_spec(y[j]))
}

/// The elementwise difference of two equally shaped grids.
pub open spec fn diff_view<T: Numeric>(a: Seq<Seq<T>>, b: Seq<Seq<T>>) -> Seq<Seq<T>> {
    Seq::new(a.len(), |i: int| diff_row_view(a[i], b[i]))
}

/// An `r` by `c` grid of additive identities.
pub open spec fn zeros_view<T: Numeric>(r: nat, c: nat) -> Seq<Seq<T>> {
    Seq::new(r, |i: int| Seq::new(c, |j: int| T::zero_spec()))
}

impl<T> View for Matrix<T> {
    type V = Seq<Seq<T>>;

    open spec fn view(&self) -> Seq<Seq<T>> {
        rows_view(self.values@)
    }
}

impl<T> Matrix<T> {
    /// Rectangularity: the declared dimensions agree with the stored grid.
    pub open spec fn wf(self) -> bool {
        &&& self.values@.len() == self.dimensions.0
        &&& forall|i: int|
            0 <= i < self.values@.len() ==> (#[trigger] self.values@[i])@.len()
                == self.dimensions.1
    }

    /// Whether the declared dimensions agree with the stored grid.
    #[verifier::loop_isolation(false)]
    pub fn well_formed(&self) -> (b: bool)
        ensures
            b == self.wf(),
    {
        if self.values.len() != self.dimensions.0 {
            return false;
        }
        let mut i: usize = 0;
        while i < self.values.len()
            invariant
                0 <= i <= self.values@.len(),
                forall|k: int|
                    0 <= k < i ==> (#[trigger] self.values@[k])@.len() == self.dimensions.1,
            decreases self.values@.len() - i,
        {
            if self.values[i].len() != self.dimensions.1 {
                return false;
            }
            i += 1;
        }
        true
    }
}

/// Whether every row of `values` has the same length as the first row.
#[verifier::loop_isolation(false)]
pub fn valid_size<T>(values: &Vec<Vec<T>>) -> (b: bool)
    requires
        values@.len() >= 1,
    ensures
        b == forall|i: int|
            0 <= i < values@.len() ==> (#[trigger] values@[i])@.len() == values@[0]@.len(),
{
    let base_len = values[0].len();
    let mut i: usize = 1;
    while i < values.len()
        invariant
            1 <= i <= values@.len(),
            forall|k: int| 0 <= k < i ==> (#[trigger] values@[k])@.len() == base_len,
        decreases values@.len() - i,
    {
        if values[i].len() != base_len {
            return false;
        }
        i += 1;
    }
    true
}

/// Copies one row of elements.
#[verifier::loop_isolation(false)]
fn copy_row<T: Copy>(row: &Vec<T>) -> (r: Vec<T>)
    ensures
        r@ == row@,
{
    let mut out: Vec<T> = Vec::new();
    let mut j: usize = 0;
    while j < row.len()
        invariant
            0 <= j <= row@.len(),
            out@ == row@.take(j as int),
        decreases row@.len() - j,
    {
        out.push(row[j]);
        assert(out@ =~= row@.take(j + 1));
        j += 1;
    }
    assert(out@ =~= row@);
    out
}

/// Copies a whole grid of rows.
#[verifier::loop_isolation(false)]
fn copy_grid<T: Copy>(values: &Vec<Vec<T>>) -> (r: Vec<Vec<T>>)
    ensures
        r@.len() == values@.len(),
        rows_view(r@) == rows_view(values@),
{
    let mut out: Vec<Vec<T>> = Vec::new();
    let mut i: usize = 0;
    while i < values.len()
        invariant
            0 <= i <= values@.len(),
            out@.len() == i,
            forall|k: int| 0 <= k < i ==> (#[trigger] out@[k])@ == values@[k]@,
        decreases values@.len() - i,
    {
        let row = copy_row(&values[i]);
        out.push(row);
        i += 1;
    }
    assert(rows_view(out@) =~= rows_view(values@));
    out
}

/// The elementwise product of two equally long rows: the unit of work of
/// `hadamard_mult`.
#[verifier::loop_isolation(false)]
pub fn hadamard_rows<T: Numeric>(x: &Vec<T>, y: &Vec<T>) -> (out: Vec<T>)
    requires
        x@.len() == y@.len(),
    ensures
        out@ == hadamard_row_view(x@, y@),
{
    let mut out: Vec<T> = Vec::new();
    let mut j: usize = 0;
    while j < x.len()
        invariant
            0 <= j <= x@.len(),
            out@.len() == j,
            forall|q: int| 0 <= q < j ==> out@[q] == x@[q].mul_spec(y@[q]),
        decreases x@.len() - j,
    {
        out.push(x[j].times(y[j]));
        j += 1;
    }
    proof {
        assert(out@ =~= hadamard_row_view(x@, y@));
    }
    out
}

/// The elementwise sum of two equally long rows: the unit of work of
/// `addition`.
#[verifier::loop_isolation(false)]
pub fn sum_rows<T: Numeric>(x: &Vec<T>, y: &Vec<T>) -> (out: Vec<T>)
    requires
        x@.len() == y@.len(),
    ensures
        out@ == sum_row_view(x@, y@),
{
    let mut out: Vec<T> = Vec::new();
    let mut j: usize = 0;
    while j < x.len()
        invariant
            0 <= j <= x@.len(),
            out@.len() == j,
            forall|q: int| 0 <= q < j ==> out@[q] == x@[q].add_spec(y@[q]),
        decreases x@.len() - j,
    {
        out.push(x[j].plus(y[j]));
        j += 1;
    }
    proof {
        assert(out@ =~= sum_row_view(x@, y@));
    }
    out
}

/// The elementwise difference of two equally long rows: the unit of work of
/// `subtraction`.
#[verifier::loop_isolation(false)]
pub fn diff_rows<T: Numeric>(x: &Vec<T>, y: &Vec<T>) -> (out: Vec<T>)
    requires
        x@.len() == y@.len(),
    ensures
        out@ == diff_row_view(x@, y@),
{
    let mut out: Vec<T> = Vec::new();
    let mut j: usize = 0;
    while j < x.len()
        invariant
            0 <= j <= x@.len(),
            out@.len() == j,
            forall|q: int| 0 <= q < j ==> out@[q] == x@[q].sub_spec(y@[q]),
        decreases x@.len() - j,
    {
        out.push(x[j].minus(y[j]));
        j += 1;
    }
    proof {
        assert(out@ =~= diff_row_view(x@, y@));
    }
    out
}

impl<T: Copy> Clone for Matrix<T> {
    /// A deep copy: same dimensions, same grid of values.
    fn clone(&self) -> (r: Self)
        ensures
            r.dimensions == self.dimensions,
            r@ == self@,
    {
        let r = Matrix {
            dimensions: (self.dimensions.0, self.dimensions.1),
            values: copy_grid(&self.values),
        };
        proof {
            assert(r@ =~= self@);
        }
        r
    }
}

impl<T: Numeric> Matrix<T> {
    /// Validates externally supplied row data. Fails exactly when the rows do
    /// not all have the same length; otherwise the matrix is a deep copy of
    /// the input with dimensions `(row count, row length)`.
    pub fn from_vec(values: &Vec<Vec<T>>) -> (r: Result<Matrix<T>, String>)
        requires
            values@.len() >= 1,
        ensures
            r is Ok <==> forall|i: int|
                0 <= i < values@.len() ==> (#[trigger] values@[i])@.len() == values@[0]@.len(),
            r matches Ok(m) ==> m.wf() && m.dimensions.0 == values@.len() && m.dimensions.1
                == values@[0]@.len() && m@ == rows_view(values@),
    {
        if valid_size(values) == false {
            return Err(String::from_str("The vector has inconsistent dimensions"));
        }
        let dims = (values.len(), values[0].len());
        let val = copy_grid(values);
        let m = Matrix { dimensions: dims, values: val };
        proof {
            assert forall|i: int| 0 <= i < m.values@.len() implies (#[trigger] m.values@[i])@.len()
                == m.dimensions.1 by {
                assert(rows_view(m.values@)[i] == rows_view(values@)[i]);
            }
            assert(m@ =~= rows_view(values@));
        }
        Ok(m)
    }

    /// A matrix of the given shape, filled with the additive identity.
    #[verifier::loop_isolation(false)]
    pub fn new(y_size: usize, x_size: usize) -> (r: Matrix<T>)
        ensures
            r.wf(),
            r.dimensions.0 == y_size,
            r.dimensions.1 == x_size,
            r@ == zeros_view::<T>(y_size as nat, x_size as nat),
    {
        let mut values: Vec<Vec<T>> = Vec::new();
        let mut y: usize = 0;
        while y < y_size
            invariant
                0 <= y <= y_size,
                values@.len() == y,
                forall|k: int|
                    0 <= k < y ==> (#[trigger] values@[k])@ == Seq::new(
                        x_size as nat,
                        |j: int| T::zero_spec(),
                    ),
            decreases y_size - y,
        {
            let mut row: Vec<T> = Vec::new();
            let mut x: usize = 0;
            while x < x_size
                invariant
                    0 <= x <= x_size,
                    row@.len() == x,
                    forall|j: int| 0 <= j < x ==> row@[j] == T::zero_spec(),
                decreases x_size - x,
            {
                row.push(T::zero());
                x += 1;
            }
            proof {
                assert(row@ =~= Seq::new(x_size as nat, |j: int| T::zero_spec()));
            }
            values.push(row);
            y += 1;
        }
        let r = Matrix { dimensions: (y_size, x_size), values };
        proof {
            assert(r@ =~= zeros_view::<T>(y_size as nat, x_size as nat));
        }
        r
    }

    /// Column `j` of this matrix: the unit of work of `transpose`.
    #[verifier::loop_isolation(false)]
    pub fn transpose_column(&self, j: usize) -> (out: Vec<T>)
        requires
            self.wf(),
            j < self.dimensions.1,
        ensures
            out@ == column(self@, j as int),
    {
        let mut out: Vec<T> = Vec::new();
        let mut y: usize = 0;
        while y < self.values.len()
            invariant
                0 <= y <= self.values@.len(),
                out@.len() == y,
                forall|k: int| 0 <= k < y ==> out@[k] == self@[k][j as int],
            decreases self.values@.len() - y,
        {
            out.push(self.values[y][j]);
            y += 1;
        }
        proof {
            assert(out@ =~= column(self@, j as int));
        }
        out
    }

    /// The transpose: a new `(cols, rows)` matrix with
    /// `out[i][j] == in[j][i]`, each output column computed as its own unit of
    /// work.
    #[verifier::loop_isolation(false)]
    pub fn transpose(&self) -> (r: Matrix<T>)
        requires
            self.wf(),
        ensures
            r.wf(),
            r.dimensions.0 == self.dimensions.1,
            r.dimensions.1 == self.dimensions.0,
            r@ == transpose_view(self@, self.dimensions.1 as nat),
            forall|i: int, j: int|
                0 <= i < self.dimensions.1 && 0 <= j < self.dimensions.0 ==> r@[i][j]
                    == self@[j][i],
    {
        let dim_x = self.dimensions.1;
        let mut values: Vec<Vec<T>> = Vec::new();
        let mut i: usize = 0;
        while i < dim_x
            invariant
                0 <= i <= dim_x,
                values@.len() == i,
                forall|k: int| 0 <= k < i ==> (#[trigger] values@[k])@ == column(self@, k),
            decreases dim_x - i,
        {
            let col = self.transpose_column(i);
            values.push(col);
            i += 1;
        }
        let r = Matrix { dimensions: (dim_x, self.dimensions.0), values };
        proof {
            assert(r@ =~= transpose_view(self@, self.dimensions.1 as nat));
        }
        r
    }

    /// Row `i` of the product `self * mat2`: the unit of work of `multiply`.
    /// Each cell is the dot product of row `i` of `self` with a column of
    /// `mat2`, accumulated in index order.
    #[verifier::loop_isolation(false)]
    pub fn product_row(&self, mat2: &Matrix<T>, i: usize) -> (out: Vec<T>)
        requires
            self.wf(),
            mat2.wf(),
            self.dimensions.1 == mat2.dimensions.0,
            i < self.dimensions.0,
        ensures
            out@ == product_row_view(self@, mat2@, mat2.dimensions.1 as nat, i as int),
    {
        let cols = mat2.dimensions.1;
        let width = self.dimensions.1;
        let mut out: Vec<T> = Vec::new();
        let mut j: usize = 0;
        while j < cols
            invariant
                0 <= j <= cols,
                out@.len() == j,
                forall|q: int|
                    0 <= q < j ==> out@[q] == dot(self@[i as int], column(mat2@, q)),
            decreases cols - j,
        {
            let mut c = T::zero();
            let mut k: usize = 0;
            while k < width
                invariant
                    0 <= k <= width,
                    c == dot_prefix(self@[i as int], column(mat2@, j as int), k as int),
                decreases width - k,
            {
                c = c.plus(self.values[i][k].times(mat2.values[k][j]));
                proof {
                    assert(column(mat2@, j as int)[k as int] == mat2@[k as int][j as int]);
                }
                k += 1;
            }
            proof {
                assert(self@[i as int].len() == width);
                assert(dot(self@[i as int], column(mat2@, j as int)) == dot_prefix(
                    self@[i as int],
                    column(mat2@, j as int),
                    width as int,
                ));
            }
            out.push(c);
            j += 1;
        }
        proof {
            assert(out@ =~= product_row_view(self@, mat2@, mat2.dimensions.1 as nat, i as int));
        }
        out
    }

    /// Matrix multiplication. Fails exactly when the inner dimensions do not
    /// agree; otherwise every cell of the `(self.rows, mat2.cols)` result is
    /// the dot product pinned by `product_view`, each output row computed as
    /// its own unit of work.
    #[verifier::loop_isolation(false)]
    pub fn multiply(&self, mat2: &Matrix<T>) -> (r: Result<Matrix<T>, String>)
        requires
            self.wf(),
            mat2.wf(),
        ensures
            r is Ok <==> self.dimensions.1 == mat2.dimensions.0,
            r matches Ok(m) ==> m.wf() && m.dimensions.0 == self.dimensions.0 && m.dimensions.1
                == mat2.dimensions.1 && m@ == product_view(
                self@,
                mat2@,
                mat2.dimensions.1 as nat,
            ),
            r matches Ok(m) ==> forall|i: int, j: int|
                0 <= i < self.dimensions.0 && 0 <= j < mat2.dimensions.1 ==> m@[i][j] == dot(
                    self@[i],
                    column(mat2@, j),
                ),
    {
        if self.dimensions.1 != mat2.dimensions.0 {
            return Err(
                String::from_str(
                    "Attempted to multiply 2 matricies that cannot be multiplied due to dimensions",
                ),
            );
        }
        let rows = self.dimensions.0;
        let mut values: Vec<Vec<T>> = Vec::new();
        let mut i: usize = 0;
        while i < rows
            invariant
                0 <= i <= rows,
                values@.len() == i,
                forall|k: int|
                    0 <= k < i ==> (#[trigger] values@[k])@ == product_row_view(
                        self@,
                        mat2@,
                        mat2.dimensions.1 as nat,
                        k,
                    ),
            decreases rows - i,
        {
            let row = self.product_row(mat2, i);
            values.push(row);
            i += 1;
        }
        let m = Matrix { dimensions: (rows, mat2.dimensions.1), values };
        proof {
            assert(m@ =~= product_view(self@, mat2@, mat2.dimensions.1 as nat));
        }
        Ok(m)
    }

    /// The Hadamard (elementwise) product. Fails exactly when the two shapes
    /// differ; otherwise every cell of the result is the product of the two
    /// operand cells, each output row computed as its own unit of work.
    #[verifier::loop_isolation(false)]
    pub fn hadamard_mult(&self, mat: &Matrix<T>) -> (r: Result<Matrix<T>, String>)
        requires
            self.wf(),
            mat.wf(),
        ensures
            r is Ok <==> self.dimensions == mat.dimensions,
            r matches Ok(m) ==> m.wf() && m.dimensions == self.dimensions && m@ == hadamard_view(
                self@,
                mat@,
            ),
            r matches Ok(m) ==> forall|i: int, j: int|
                0 <= i < self.dimensions.0 && 0 <= j < self.dimensions.1 ==> m@[i][j]
                    == self@[i][j].mul_spec(mat@[i][j]),
    {
        if self.dimensions.0 != mat.dimensions.0 || self.dimensions.1 != mat.dimensions.1 {
            return Err(
                String::from_str("Matrix dimensions are not equal to do a Hadarmard multiplication"),
            );
        }
        let rows = self.dimensions.0;
        let mut values: Vec<Vec<T>> = Vec::new();
        let mut i: usize = 0;
        while i < rows
            invariant
                0 <= i <= rows,
                values@.len() == i,
                forall|k: int|
                    0 <= k < i ==> (#[trigger] values@[k])@ == hadamard_row_view(
                        self@[k],
                        mat@[k],
                    ),
            decreases rows - i,
        {
            let row = hadamard_rows(&self.values[i], &mat.values[i]);
            values.push(row);
            i += 1;
        }
        let m = Matrix { dimensions: (rows, self.dimensions.1), values };
        proof {
            assert(m@ =~= hadamard_view(self@, mat@));
        }
        Ok(m)
    }

    /// Elementwise addition. Fails exactly when the two shapes differ;
    /// otherwise every cell of the result is the sum of the two operand
    /// cells, each output row computed as its own unit of work.
    #[verifier::loop_isolation(false)]
    pub fn addition(&self, mat: &Matrix<T>) -> (r: Result<Matrix<T>, String>)
        requires
            self.wf(),
            mat.wf(),
        ensures
            r is Ok <==> self.dimensions == mat.dimensions,
            r matches Ok(m) ==> m.wf() && m.dimensions == self.dimensions && m@ == sum_view(
                self@,
                mat@,
            ),
            r matches Ok(m) ==> forall|i: int, j: int|
                0 <= i < self.dimensions.0 && 0 <= j < self.dimensions.1 ==> m@[i][j]
                    == self@[i][j].add_spec(mat@[i][j]),
    {
        if self.dimensions.0 != mat.dimensions.0 || self.dimensions.1 != mat.dimensions.1 {
            return Err(
                String::from_str("Cannot perform addition on matricies of different dimension"),
            );
        }
        let rows = self.dimensions.0;
        let mut values: Vec<Vec<T>> = Vec::new();
        let mut i: usize = 0;
        while i < rows
            invariant
                0 <= i <= rows,
                values@.len() == i,
                forall|k: int|
                    0 <= k < i ==> (#[trigger] values@[k])@ == sum_row_view(self@[k], mat@[k]),
            decreases rows - i,
        {
            let row = sum_rows(&self.values[i], &mat.values[i]);
            values.push(row);
            i += 1;
        }
        let m = Matrix { dimensions: (rows, self.dimensions.1), values };
        proof {
            assert(m@ =~= sum_view(self@, mat@));
        }
        Ok(m)
    }

    /// Elementwise subtraction. Fails exactly when the two shapes differ;
    /// otherwise every cell of the result is the difference of the two
    /// operand cells, each output row computed as its own unit of work.
    #[verifier::loop_isolation(false)]
    pub fn subtraction(&self, mat: &Matrix<T>) -> (r: Result<Matrix<T>, String>)
        requires
            self.wf(),
            mat.wf(),
        ensures
            r is Ok <==> self.dimensions == mat.dimensions,
            r matches Ok(m) ==> m.wf() && m.dimensions == self.dimensions && m@ == diff_view(
                self@,
                mat@,
            ),
            r matches Ok(m) ==> forall|i: int, j: int|
                0 <= i < self.dimensions.0 && 0 <= j < self.dimensions.1 ==> m@[i][j]
                    == self@[i][j].sub_spec(mat@[i][j]),
    {
        if self.dimensions.0 != mat.dimensions.0 || self.dimensions.1 != mat.dimensions.1 {
            return Err(
                String::from_str("Cannot perform subtraction on matricies of different dimension"),
            );
        }
        let rows = self.dimensions.0;
        let mut values: Vec<Vec<T>> = Vec::new();
        let mut i: usize = 0;
        while i < rows
            invariant
                0 <= i <= rows,
                values@.len() == i,
                forall|k: int|
                    0 <= k < i ==> (#[trigger] values@[k])@ == diff_row_view(self@[k], mat@[k]),
            decreases rows - i,
        {
            let row = diff_rows(&self.values[i], &mat.values[i]);
            values.push(row);
            i += 1;
        }
        let m = Matrix { dimensions: (rows, self.dimensions.1), values };
        proof {
            assert(m@ =~= diff_view(self@, mat@));
        }
        Ok(m)
    }

    /// Row `i` of `self` times the transpose of `mat2`: the unit of work of
    /// `multiply_by_transpose`. Each cell is the dot product of row `i` of
    /// `self` with a row of `mat2`, accumulated in index order.
    #[verifier::loop_isolation(false)]
    pub fn product_transpose_row(&self, mat2: &Matrix<T>, i: usize) -> (out: Vec<T>)
        requires
            self.wf(),
            mat2.wf(),
            self.dimensions.1 == mat2.dimensions.1,
            i < self.dimensions.0,
        ensures
            out@ == product_transpose_row_view(self@, mat2@, i as int),
    {
        let width = self.dimensions.1;
        let rows2 = mat2.dimensions.0;
        let mut out: Vec<T> = Vec::new();
        let mut j: usize = 0;
        while j < rows2
            invariant
                0 <= j <= rows2,
                out@.len() == j,
                forall|q: int| 0 <= q < j ==> out@[q] == dot(self@[i as int], mat2@[q]),
            decreases rows2 - j,
        {
            let mut c = T::zero();
            let mut k: usize = 0;
            while k < width
                invariant
                    0 <= k <= width,
                    c == dot_prefix(self@[i as int], mat2@[j as int], k as int),
                decreases width - k,
            {
                c = c.plus(self.values[i][k].times(mat2.values[j][k]));
                k += 1;
            }
            proof {
                assert(self@[i as int].len() == width);
            }
            out.push(c);
            j += 1;
        }
        proof {
            assert(out@ =~= product_transpose_row_view(self@, mat2@, i as int));
        }
        out
    }

    /// Multiplies `self` by the transpose of `mat2` without materializing
    /// that transpose. Fails exactly when the two column counts differ;
    /// otherwise the result is the `(self.rows, mat2.rows)` matrix pinned by
    /// `product_transpose_view`, each output row computed as its own unit of
    /// work.
    #[verifier::loop_isolation(false)]
    pub fn multiply_by_transpose(&self, mat2: &Matrix<T>) -> (r: Result<Matrix<T>, String>)
        requires
            self.wf(),
            mat2.wf(),
        ensures
            r is Ok <==> self.dimensions.1 == mat2.dimensions.1,
            r matches Ok(m) ==> m.wf() && m.dimensions.0 == self.dimensions.0 && m.dimensions.1
                == mat2.dimensions.0 && m@ == product_transpose_view(self@, mat2@),
            r matches Ok(m) ==> forall|i: int, j: int|
                0 <= i < self.dimensions.0 && 0 <= j < mat2.dimensions.0 ==> m@[i][j] == dot(
                    self@[i],
                    mat2@[j],
                ),
    {
        if self.dimensions.1 != mat2.dimensions.1 {
            return Err(
                String::from_str(
                    "Attempted to multiply the transpose of mat 2 that cannot be multiplied due to dimensions",
                ),
            );
        }
        let rows = self.dimensions.0;
        let mut values: Vec<Vec<T>> = Vec::new();
        let mut i: usize = 0;
        while i < rows
            invariant
                0 <= i <= rows,
                values@.len() == i,
                forall|k: int|
                    0 <= k < i ==> (#[trigger] values@[k])@ == product_transpose_row_view(
                        self@,
                        mat2@,
                        k,
                    ),
            decreases rows - i,
        {
            let row = self.product_transpose_row(mat2, i);
            values.push(row);
            i += 1;
        }
        let m = Matrix { dimensions: (rows, mat2.dimensions.0), values };
        proof {
            assert(m@ =~= product_transpose_view(self@, mat2@));
        }
        Ok(m)
    }
}

/// Transposing twice is the identity: for any well-formed matrix `a`, the
/// transpose of its transpose has the shape and the values of `a` itself.
pub proof fn lemma_transpose_involutive<T: Numeric>(a: Matrix<T>)
    requires
        a.wf(),
    ensures
        transpose_view(transpose_view(a@, a.dimensions.1 as nat), a.dimensions.0 as nat) == a@,
{
    let c = a.dimensions.1 as nat;
    let r = a.dimensions.0 as nat;
    let t1 = transpose_view(a@, c);
    let t2 = transpose_view(t1, r);
    assert forall|i: int| 0 <= i < r implies t2[i] == a@[i] by {
        assert(column(t1, i) =~= a@[i]);
    }
    assert(t2 =~= a@);
}

/// Multiplying by a transpose without materializing it agrees with first
/// transposing and then multiplying: for well-formed `a` and `b` with equal
/// column counts, `a * transpose(b)` equals `multiply_by_transpose(a, b)`.
pub proof fn lemma_multiply_by_transpose_equiv<T: Numeric>(a: Matrix<T>, b: Matrix<T>)
    requires
        a.wf(),
        b.wf(),
        a.dimensions.1 == b.dimensions.1,
    ensures
        product_view(a@, transpose_view(b@, b.dimensions.1 as nat), b.dimensions.0 as nat)
            == product_transpose_view(a@, b@),
{
    let t = transpose_view(b@, b.dimensions.1 as nat);
    let lhs = product_view(a@, t, b.dimensions.0 as nat);
    let rhs = product_transpose_view(a@, b@);
    assert forall|i: int| 0 <= i < a@.len() implies lhs[i] == rhs[i] by {
        assert forall|j: int| 0 <= j < b@.len() implies dot(a@[i], column(t, j)) == dot(
            a@[i],
            b@[j],
        ) by {
            assert(column(t, j) =~= b@[j]);
        }
        assert(product_row_view(a@, t, b.dimensions.0 as nat, i) =~= product_transpose_row_view(
            a@,
            b@,
            i,
        ));
    }
    assert(lhs =~= rhs);
}

/// Adding an all-zeros matrix of the same shape returns the original values:
/// the additive identity of the element type is an identity of `addition`.
pub proof fn lemma_addition_zeros_identity<T: Numeric>(a: Matrix<T>)
    requires
        a.wf(),
    ensures
        sum_view(a@, zeros_view::<T>(a.dimensions.0 as nat, a.dimensions.1 as nat)) == a@,
{
    let z = zeros_view::<T>(a.dimensions.0 as nat, a.dimensions.1 as nat);
    assert forall|i: int| 0 <= i < a@.len() implies sum_view(a@, z)[i] == a@[i] by {
        assert forall|j: int| 0 <= j < a@[i].len() implies sum_row_view(a@[i], z[i])[j]
            == a@[i][j] by {
            T::lemma_add_zero(a@[i][j]);
        }
        assert(sum_row_view(a@[i], z[i]) =~= a@[i]);
    }
    assert(sum_view(a@, z) =~= a@);
}

/// Repeated multiplication of the same operands yields the identical matrix:
/// the contract of `multiply` makes every result equal to `product_view` of
/// the operand values alone, so no scheduling of the row computations can
/// leak into the value returned.
pub proof fn lemma_multiply_deterministic<T: Numeric>(
    a: Matrix<T>,
    b: Matrix<T>,
    m1: Matrix<T>,
    m2: Matrix<T>,
)
    requires
        m1@ == product_view(a@, b@, b.dimensions.1 as nat),
        m2@ == product_view(a@, b@, b.dimensions.1 as nat),
    ensures
        m1@ == m2@,
{
}

} // verus!
