use vstd::prelude::*;

verus! {

/// Largest magnitude an entry may have when it feeds a product or a sum.
/// With entries and summation lengths capped at one million, a dot product
/// stays below 10^18 and every intermediate value fits in an `i64`.
pub const ENTRY_LIMIT: i64 = 1_000_000;

/// Largest summation length (inner dimension of a product, or row count of a
/// column sum) for which the limits above keep all arithmetic in range.
pub const DIM_LIMIT: usize = 1_000_000;

/// Magnitude bound on the entries of a matrix product whose operands obey
/// `ENTRY_LIMIT` and `DIM_LIMIT`: `DIM_LIMIT * ENTRY_LIMIT * ENTRY_LIMIT`.
pub const PROD_LIMIT: i64 = 1_000_000_000_000_000_000;

/// A dense two-dimensional array of 64-bit integers with a fixed shape,
/// stored one row at a time.
pub struct Matrix {
    rows: usize,
    cols: usize,
    data: Vec<Vec<i64>>,
}

/// The row `i` of `m` as a sequence of its `m.ncols()` entries.
pub open spec fn row_s(m: Matrix, i: int) -> Seq<i64> {
    Seq::new(m.ncols() as nat, |j: int| m.ent(i, j))
}

/// The column `j` of `m` as a sequence of its `m.nrows()` entries.
pub open spec fn col_s(m: Matrix, j: int) -> Seq<i64> {
    Seq::new(m.nrows() as nat, |i: int| m.ent(i, j))
}

/// The sum of the first `n` products of corresponding entries of `a` and `b`,
/// taken left to right.
pub open spec fn dot_prefix(a: Seq<i64>, b: Seq<i64>, n: int) -> int
    decreases n,
{
    if n <= 0 {
        0
    } else {
        dot_prefix(a, b, n - 1) + a[n - 1] * b[n - 1]
    }
}

/// The dot product of two equally long sequences, as an unbounded integer.
pub open spec fn dot(a: Seq<i64>, b: Seq<i64>) -> int {
    dot_prefix(a, b, a.len() as int)
}

/// The sum of the first `n` entries of column `j` of `m`.
pub open spec fn col_sum_prefix(m: Matrix, j: int, n: int) -> int
    decreases n,
{
    if n <= 0 {
        0
    } else {
        col_sum_prefix(m, j, n - 1) + m.ent(n - 1, j)
    }
}

/// The sum of column `j` of `m` over all rows.
pub open spec fn col_sum(m: Matrix, j: int) -> int {
    col_sum_prefix(m, j, m.nrows())
}

/// Every entry of `m` lies in `[-lim, lim]`.
pub open spec fn entries_within(m: Matrix, lim: int) -> bool {
    forall|i: int, j: int|
        0 <= i < m.nrows() && 0 <= j < m.ncols() ==> -lim <= #[trigger] m.ent(i, j) as int <= lim
}

/// Every entry of `m` lies in `[-ENTRY_LIMIT, ENTRY_LIMIT]`.
pub open spec fn entries_bounded(m: Matrix) -> bool {
    entries_within(m, ENTRY_LIMIT as int)
}

/// A matrix never has a negative number of rows or columns.
pub broadcast proof fn lemma_dims_nonneg(m: Matrix)
    ensures
        0 <= #[trigger] m.nrows(),
        0 <= #[trigger] m.ncols(),
{
}

impl Matrix {
    /// Shape consistency: one inner vector per row, each of the common width.
    #[verifier::type_invariant]
    spec fn shape_wf(self) -> bool {
        &&& self.data@.len() == self.rows
        &&& forall|i: int| 0 <= i < self.rows ==> (#[trigger] self.data@[i])@.len() == self.cols
    }

    /// The number of rows.
    pub closed spec fn nrows(self) -> int {
        self.rows as int
    }

    /// The number of columns.
    pub closed spec fn ncols(self) -> int {
        self.cols as int
    }

    /// The entry in row `i`, column `j`.
    pub closed spec fn ent(self, i: int, j: int) -> i64 {
        self.data@[i]@[j]
    }

    /// Same shape and equal entries everywhere.
    pub open spec fn eqv(self, other: Matrix) -> bool {
        &&& self.nrows() == other.nrows()
        &&& self.ncols() == other.ncols()
        &&& forall|i: int, j: int|
            0 <= i < self.nrows() && 0 <= j < self.ncols() ==> #[trigger] self.ent(i, j)
                == other.ent(i, j)
    }

    /// Builds a matrix from its rows. Succeeds exactly when all rows have the
    /// same length; a matrix with no rows has zero columns.
    pub fn from_rows(data: Vec<Vec<i64>>) -> (r: Option<Matrix>)
        ensures
            r is Some <==> (forall|i: int|
                0 <= i < data@.len() ==> (#[trigger] data@[i])@.len() == data@[0]@.len()),
            r matches Some(m) ==> {
                &&& m.nrows() == data@.len()
                &&& m.ncols() == (if data@.len() > 0 {
                    data@[0]@.len() as int
                } else {
                    0
                })
                &&& forall|i: int, j: int|
                    0 <= i < m.nrows() && 0 <= j < m.ncols() ==> #[trigger] m.ent(i, j)
                        == data@[i]@[j]
            },
    {
        let rows = data.len();
        let cols = if rows > 0 {
            data[0].len()
        } else {
            0
        };
        let mut i: usize = 0;
        while i < rows
            invariant
                i <= rows,
                rows == data@.len(),
                cols == (if rows > 0 {
                    data@[0]@.len() as int
                } else {
                    0
                }),
                forall|k: int| 0 <= k < i ==> (#[trigger] data@[k])@.len() == cols,
            decreases rows - i,
        {
            if data[i].len() != cols {
                return None;
            }
            i += 1;
        }
        Some(Matrix { rows, cols, data })
    }

    /// Builds a matrix of a known shape from its rows.
    pub(crate) fn from_rows_exact(rows: usize, cols: usize, data: Vec<Vec<i64>>) -> (r: Matrix)
        requires
            data@.len() == rows,
            forall|i: int| 0 <= i < rows ==> (#[trigger] data@[i])@.len() == cols,
        ensures
            r.nrows() == rows,
            r.ncols() == cols,
            forall|i: int, j: int|
                0 <= i < rows && 0 <= j < cols ==> #[trigger] r.ent(i, j) == data@[i]@[j],
    {
        Matrix { rows, cols, data }
    }

    /// The number of rows.
    pub fn rows(&self) -> (r: usize)
        ensures
            r == self.nrows(),
    {
        self.rows
    }

    /// The number of columns.
    pub fn cols(&self) -> (r: usize)
        ensures
            r == self.ncols(),
    {
        self.cols
    }

    /// The entry in row `i`, column `j`.
    pub fn get(&self, i: usize, j: usize) -> (r: i64)
        requires
            i < self.nrows(),
            j < self.ncols(),
        ensures
            r == self.ent(i as int, j as int),
    {
        proof {
            use_type_invariant(self);
        }
        self.data[i][j]
    }

    /// A fresh matrix with the same shape and the same entries.
    #[verifier::loop_isolation(false)]
    pub fn duplicate(&self) -> (r: Matrix)
        ensures
            r.eqv(*self),
    {
        proof {
            use_type_invariant(self);
        }
        let mut data: Vec<Vec<i64>> = Vec::new();
        let mut i: usize = 0;
        while i < self.rows
            invariant
                i <= self.rows,
                data@.len() == i,
                forall|k: int| 0 <= k < i ==> (#[trigger] data@[k])@.len() == self.ncols(),
                forall|k: int, j: int|
                    0 <= k < i && 0 <= j < self.ncols() ==> #[trigger] data@[k]@[j] == self.ent(
                        k,
                        j,
                    ),
            decreases self.rows - i,
        {
            let mut rowv: Vec<i64> = Vec::new();
            let mut j: usize = 0;
            while j < self.cols
                invariant
                    j <= self.cols,
                    rowv@.len() == j,
                    forall|c: int| 0 <= c < j ==> #[trigger] rowv@[c] == self.ent(i as int, c),
                decreases self.cols - j,
            {
                rowv.push(self.data[i][j]);
                j += 1;
            }
            data.push(rowv);
            i += 1;
        }
        Matrix { rows: self.rows, cols: self.cols, data }
    }

    /// The transpose: entry `(i, j)` of the result is entry `(j, i)` of `self`.
    #[verifier::loop_isolation(false)]
    pub fn transpose(&self) -> (r: Matrix)
        ensures
            r.nrows() == self.ncols(),
            r.ncols() == self.nrows(),
            forall|i: int, j: int|
                0 <= i < r.nrows() && 0 <= j < r.ncols() ==> #[trigger] r.ent(i, j) == self.ent(
                    j,
                    i,
                ),
    {
        proof {
            use_type_invariant(self);
        }
        let mut data: Vec<Vec<i64>> = Vec::new();
        let mut i: usize = 0;
        while i < self.cols
            invariant
                i <= self.cols,
                data@.len() == i,
                forall|k: int| 0 <= k < i ==> (#[trigger] data@[k])@.len() == self.nrows(),
                forall|k: int, j: int|
                    0 <= k < i && 0 <= j < self.nrows() ==> #[trigger] data@[k]@[j] == self.ent(
                        j,
                        k,
                    ),
            decreases self.cols - i,
        {
            let mut rowv: Vec<i64> = Vec::new();
            let mut j: usize = 0;
            while j < self.rows
                invariant
                    j <= self.rows,
                    rowv@.len() == j,
                    forall|c: int| 0 <= c < j ==> #[trigger] rowv@[c] == self.ent(c, i as int),
                decreases self.rows - j,
            {
                rowv.push(self.data[j][i]);
                j += 1;
            }
            data.push(rowv);
            i += 1;
        }
        Matrix { rows: self.cols, cols: self.rows, data }
    }

    /// The matrix product `self · other`: entry `(i, j)` is the dot product of
    /// row `i` of `self` and column `j` of `other`, summed left to right.
    #[verifier::loop_isolation(false)]
    pub fn mat_mul(&self, other: &Matrix) -> (r: Matrix)
        requires
            self.ncols() == other.nrows(),
            self.ncols() <= DIM_LIMIT as int,
            entries_bounded(*self),
            entries_bounded(*other),
        ensures
            r.nrows() == self.nrows(),
            r.ncols() == other.ncols(),
            forall|i: int, j: int|
                0 <= i < r.nrows() && 0 <= j < r.ncols() ==> (#[trigger] r.ent(i, j)) as int
                    == dot(row_s(*self, i), col_s(*other, j)),
            entries_within(r, PROD_LIMIT as int),
    {
        proof {
            use_type_invariant(self);
            use_type_invariant(other);
        }
        let m = self.rows;
        let n = self.cols;
        let p = other.cols;
        let mut data: Vec<Vec<i64>> = Vec::new();
        let mut i: usize = 0;
        while i < m
            invariant
                i <= m,
                data@.len() == i,
                forall|k: int| 0 <= k < i ==> (#[trigger] data@[k])@.len() == p,
                forall|k: int, j: int|
                    0 <= k < i && 0 <= j < p ==> (#[trigger] data@[k]@[j]) as int == dot(
                        row_s(*self, k),
                        col_s(*other, j),
                    ),
                forall|k: int, j: int|
                    0 <= k < i && 0 <= j < p ==> -(PROD_LIMIT as int) <= (#[trigger] data@[k]@[j])
                        as int <= PROD_LIMIT as int,
            decreases m - i,
        {
            let mut rowv: Vec<i64> = Vec::new();
            let mut j: usize = 0;
            while j < p
                invariant
                    j <= p,
                    rowv@.len() == j,
                    forall|c: int|
                        0 <= c < j ==> (#[trigger] rowv@[c]) as int == dot(
                            row_s(*self, i as int),
                            col_s(*other, c),
                        ),
                    forall|c: int|
                        0 <= c < j ==> -(PROD_LIMIT as int) <= (#[trigger] rowv@[c]) as int
                            <= PROD_LIMIT as int,
                decreases p - j,
            {
                let mut acc: i64 = 0;
                let mut k: usize = 0;
                while k < n
                    invariant
                        k <= n,
                        acc as int == dot_prefix(
                            row_s(*self, i as int),
                            col_s(*other, j as int),
                            k as int,
                        ),
                        -(k as int) * 1_000_000_000_000 <= acc as int <= (k as int)
                            * 1_000_000_000_000,
                    decreases n - k,
                {
                    let a = self.data[i][k];
                    let b = other.data[k][j];
                    proof {
                        assert(a == self.ent(i as int, k as int));
                        assert(b == other.ent(k as int, j as int));
                        assert(-(ENTRY_LIMIT as int) * (ENTRY_LIMIT as int) <= (a as int) * (
                        b as int) <= (ENTRY_LIMIT as int) * (ENTRY_LIMIT as int))
                            by (nonlinear_arith)
                            requires
                                -(ENTRY_LIMIT as int) <= a as int <= ENTRY_LIMIT as int,
                                -(ENTRY_LIMIT as int) <= b as int <= ENTRY_LIMIT as int,
                        ;
                        assert((k as int + 1) * 1_000_000_000_000 <= (DIM_LIMIT as int)
                            * 1_000_000_000_000) by (nonlinear_arith)
                            requires
                                k as int + 1 <= DIM_LIMIT as int,
                        ;
                        assert((k as int + 1) * 1_000_000_000_000 == (k as int)
                            * 1_000_000_000_000 + 1_000_000_000_000) by (nonlinear_arith);
                    }
                    let prod = a * b;
                    acc = acc + prod;
                    k += 1;
                }
                rowv.push(acc);
                j += 1;
            }
            data.push(rowv);
            i += 1;
        }
        Matrix { rows: m, cols: p, data }
    }

    /// Adds the single row `row` to every row of `self`.
    #[verifier::loop_isolation(false)]
    pub fn add_broadcast_row(&self, row: &Matrix) -> (r: Matrix)
        requires
            row.nrows() == 1,
            row.ncols() == self.ncols(),
            entries_within(*self, PROD_LIMIT as int),
            entries_bounded(*row),
        ensures
            r.nrows() == self.nrows(),
            r.ncols() == self.ncols(),
            forall|i: int, j: int|
                0 <= i < r.nrows() && 0 <= j < r.ncols() ==> (#[trigger] r.ent(i, j)) as int
                    == self.ent(i, j) + row.ent(0, j),
    {
        proof {
            use_type_invariant(self);
            use_type_invariant(row);
        }
        let mut data: Vec<Vec<i64>> = Vec::new();
        let mut i: usize = 0;
        while i < self.rows
            invariant
                i <= self.rows,
                data@.len() == i,
                forall|k: int| 0 <= k < i ==> (#[trigger] data@[k])@.len() == self.ncols(),
                forall|k: int, j: int|
                    0 <= k < i && 0 <= j < self.ncols() ==> (#[trigger] data@[k]@[j]) as int
                        == self.ent(k, j) + row.ent(0, j),
            decreases self.rows - i,
        {
            let mut rowv: Vec<i64> = Vec::new();
            let mut j: usize = 0;
            while j < self.cols
                invariant
                    j <= self.cols,
                    rowv@.len() == j,
                    forall|c: int|
                        0 <= c < j ==> (#[trigger] rowv@[c]) as int == self.ent(i as int, c)
                            + row.ent(0, c),
                decreases self.cols - j,
            {
                proof {
                    assert(self.ent(i as int, j as int) == self.data@[i as int]@[j as int]);
                    assert(row.ent(0, j as int) == row.data@[0]@[j as int]);
                }
                rowv.push(self.data[i][j] + row.data[0][j]);
                j += 1;
            }
            data.push(rowv);
            i += 1;
        }
        Matrix { rows: self.rows, cols: self.cols, data }
    }

    /// The sum of each column over all rows, one entry per column.
    #[verifier::loop_isolation(false)]
    pub fn col_sums(&self) -> (r: Vec<i64>)
        requires
            self.nrows() <= DIM_LIMIT as int,
            entries_bounded(*self),
        ensures
            r@.len() == self.ncols(),
            forall|j: int|
                0 <= j < self.ncols() ==> (#[trigger] r@[j]) as int == col_sum(*self, j),
    {
        proof {
            use_type_invariant(self);
        }
        let mut sums: Vec<i64> = Vec::new();
        let mut j: usize = 0;
        while j < self.cols
            invariant
                j <= self.cols,
                sums@.len() == j,
                forall|c: int| 0 <= c < j ==> (#[trigger] sums@[c]) as int == col_sum(*self, c),
            decreases self.cols - j,
        {
            let mut acc: i64 = 0;
            let mut i: usize = 0;
            while i < self.rows
                invariant
                    i <= self.rows,
                    acc as int == col_sum_prefix(*self, j as int, i as int),
                    -(i as int) * (ENTRY_LIMIT as int) <= acc as int <= (i as int) * (
                    ENTRY_LIMIT as int),
                decreases self.rows - i,
            {
                proof {
                    assert(self.ent(i as int, j as int) == self.data@[i as int]@[j as int]);
                    assert((i as int + 1) * (ENTRY_LIMIT as int) <= (DIM_LIMIT as int) * (
                    ENTRY_LIMIT as int)) by (nonlinear_arith)
                        requires
                            i as int + 1 <= DIM_LIMIT as int,
                    ;
                    assert((i as int + 1) * (ENTRY_LIMIT as int) == (i as int) * (
                    ENTRY_LIMIT as int) + ENTRY_LIMIT as int) by (nonlinear_arith);
                }
                acc = acc + self.data[i][j];
                i += 1;
            }
            sums.push(acc);
            j += 1;
        }
        sums
    }
}

} // verus!
