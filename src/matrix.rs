use vstd::prelude::*;
use crate::failure::{NetworkError, mismatch};
use crate::scalar::Scalar;

verus! {

/// A dense matrix of `rows` by `cols` entries, stored row by row in `items`.
#[derive(Debug)]
pub struct Matrix<T> {
    pub items: Vec<T>,
    pub rows: usize,
    pub cols: usize,
}

/// `i * cols + j < rows * cols` for every position inside the bounds.
pub proof fn lemma_index_in_bounds(i: int, j: int, rows: int, cols: int)
    requires
        0 <= i < rows,
        0 <= j < cols,
    ensures
        0 <= i * cols + j < rows * cols,
        i * cols <= i * cols + j,
{
    assert(i * cols + j < rows * cols) by (nonlinear_arith)
        requires 0 <= i < rows, 0 <= j < cols;
    assert(0 <= i * cols) by (nonlinear_arith)
        requires 0 <= i, 0 <= j < cols;
}

/// The offset of entry `(i, j)` in the row-major storage of a matrix with
/// `cols` columns.
pub fn calc_index(i: usize, j: usize, cols: usize) -> (r: usize)
    requires
        i * cols + j <= usize::MAX,
    ensures
        r == i * cols + j,
{
    i * cols + j
}

impl<T: Copy> Matrix<T> {
    /// The storage holds exactly one entry per position.
    pub open spec fn wf(&self) -> bool {
        self.items@.len() == self.rows * self.cols
    }

    /// Entry `(i, j)`.
    pub open spec fn at(&self, i: int, j: int) -> T {
        self.items@[i * self.cols + j]
    }

    /// Same shape as `m`.
    pub open spec fn same_shape(&self, m: &Matrix<T>) -> bool {
        self.rows == m.rows && self.cols == m.cols
    }

    /// Same shape and the same entry at every position as `m`.
    pub open spec fn same_entries(&self, m: &Matrix<T>) -> bool {
        &&& self.same_shape(m)
        &&& forall|i: int, j: int|
            0 <= i < self.rows && 0 <= j < self.cols ==> #[trigger] self.at(i, j) == m.at(i, j)
    }

    /// `self` combines `a` and `b` entry by entry with `combine`.
    pub open spec fn is_zip_of<F: Fn(T, T) -> T>(&self, a: &Matrix<T>, b: &Matrix<T>, combine: F) -> bool {
        &&& self.same_shape(a)
        &&& a.same_shape(b)
        &&& forall|i: int, j: int|
            0 <= i < self.rows && 0 <= j < self.cols ==> combine.ensures((a.at(i, j), b.at(i, j)), #[trigger] self.at(i, j))
    }

    /// `self` is the transpose of `m`.
    pub open spec fn is_transpose_of(&self, m: &Matrix<T>) -> bool {
        &&& self.rows == m.cols
        &&& self.cols == m.rows
        &&& forall|i: int, j: int|
            0 <= i < self.rows && 0 <= j < self.cols ==> #[trigger] self.at(i, j) == m.at(j, i)
    }

    /// The storage offset of entry `(i, j)`.
    fn offset(&self, i: usize, j: usize) -> (r: usize)
        requires
            self.wf(),
            i < self.rows,
            j < self.cols,
        ensures
            r == i * self.cols + j,
            r < self.items@.len(),
    {
        let len = self.items.len();
        proof {
            lemma_index_in_bounds(i as int, j as int, self.rows as int, self.cols as int);
            assert(i * self.cols + j < len);
        }
        calc_index(i, j, self.cols)
    }

    /// Whether the storage holds exactly one entry per position.
    pub fn is_well_formed(&self) -> (r: bool)
        ensures
            r == self.wf(),
    {
        let len = self.items.len();
        match self.rows.checked_mul(self.cols) {
            Some(n) => n == len,
            None => false,
        }
    }

    /// Entry `(i, j)`, or `IndexOutOfRange` outside the bounds.
    pub fn get(&self, i: usize, j: usize) -> (r: Result<T, NetworkError>)
        requires
            self.wf(),
        ensures
            i < self.rows && j < self.cols ==> r == Ok::<T, NetworkError>(self.at(i as int, j as int)),
            !(i < self.rows && j < self.cols) ==> r == Err::<T, NetworkError>(NetworkError::IndexOutOfRange),
    {
        if i < self.rows && j < self.cols {
            Ok(self.items[self.offset(i, j)])
        } else {
            Err(NetworkError::IndexOutOfRange)
        }
    }

    /// Replaces entry `(i, j)` by `value`; `IndexOutOfRange` outside the
    /// bounds, with the matrix left as it was.
    pub fn set(&mut self, i: usize, j: usize, value: T) -> (r: Result<(), NetworkError>)
        requires
            old(self).wf(),
        ensures
            final(self).wf(),
            final(self).rows == old(self).rows,
            final(self).cols == old(self).cols,
            i < old(self).rows && j < old(self).cols ==> {
                &&& r is Ok
                &&& final(self).items@ == old(self).items@.update(i * old(self).cols + j, value)
            },
            !(i < old(self).rows && j < old(self).cols) ==> {
                &&& r == Err::<(), NetworkError>(NetworkError::IndexOutOfRange)
                &&& final(self).items@ == old(self).items@
            },
    {
        if i < self.rows && j < self.cols {
            let k = self.offset(i, j);
            self.items.set(k, value);
            Ok(())
        } else {
            Err(NetworkError::IndexOutOfRange)
        }
    }

    /// A `rows` by `cols` matrix whose entry `(i, j)` is what `entry` returns
    /// for `(i, j)`.
    pub fn from_fn<F: Fn(usize, usize) -> T>(rows: usize, cols: usize, entry: F) -> (r: Matrix<T>)
        requires
            forall|i: usize, j: usize| i < rows && j < cols ==> #[trigger] entry.requires((i, j)),
        ensures
            r.wf(),
            r.rows == rows,
            r.cols == cols,
            forall|i: int, j: int|
                0 <= i < rows && 0 <= j < cols ==> entry.ensures((i as usize, j as usize), #[trigger] r.at(i, j)),
    {
        let mut result: Vec<T> = Vec::new();
        let mut i: usize = 0;
        while i < rows
            invariant
                forall|i: usize, j: usize| i < rows && j < cols ==> #[trigger] entry.requires((i, j)),
                i <= rows,
                result@.len() == i * cols,
                forall|a: int, b: int|
                    0 <= a < i && 0 <= b < cols ==> entry.ensures((a as usize, b as usize), #[trigger] result@[a * cols + b]),
            decreases rows - i,
        {
            let mut j: usize = 0;
            while j < cols
                invariant
                    forall|i: usize, j: usize| i < rows && j < cols ==> #[trigger] entry.requires((i, j)),
                    i < rows,
                    j <= cols,
                    result@.len() == i * cols + j,
                    forall|a: int, b: int|
                        0 <= a < i && 0 <= b < cols ==> entry.ensures((a as usize, b as usize), #[trigger] result@[a * cols + b]),
                    forall|b: int| 0 <= b < j ==> entry.ensures((i, b as usize), #[trigger] result@[i * cols + b]),
                decreases cols - j,
            {
                let ghost prev = result@;
                let v = entry(i, j);
                result.push(v);
                proof {
                    assert forall|a: int, b: int|
                        0 <= a < i && 0 <= b < cols implies entry.ensures((a as usize, b as usize), #[trigger] result@[a * cols + b]) by {
                        lemma_index_in_bounds(a, b, i as int, cols as int);
                        assert(entry.ensures((a as usize, b as usize), prev[a * cols + b]));
                    }
                    assert forall|b: int| 0 <= b < j + 1 implies entry.ensures((i, b as usize), #[trigger] result@[i * cols + b]) by {
                        if b < j {
                            assert(entry.ensures((i, b as usize), prev[i * cols + b]));
                        }
                    }
                }
                j += 1;
            }
            proof {
                assert forall|a: int, b: int|
                    0 <= a < i + 1 && 0 <= b < cols implies entry.ensures((a as usize, b as usize), #[trigger] result@[a * cols + b]) by {
                    if a == i {
                        assert(entry.ensures((i, b as usize), result@[i * cols + b]));
                    }
                }
                assert((i + 1) * cols == i * cols + cols) by (nonlinear_arith);
            }
            i += 1;
        }
        Matrix { items: result, rows, cols }
    }

    /// The transpose: entry `(i, j)` of the result is entry `(j, i)` here.
    pub fn transpose(&self) -> (r: Matrix<T>)
        requires
            self.wf(),
        ensures
            r.wf(),
            r.is_transpose_of(self),
    {
        let entry = |i: usize, j: usize| -> (v: T)
            requires
                i < self.cols,
                j < self.rows,
            ensures
                v == self.at(j as int, i as int),
        {
            self.items[self.offset(j, i)]
        };
        Matrix::from_fn(self.cols, self.rows, entry)
    }
}

impl<T: Copy> Matrix<T> {
    /// Row `i` as a sequence.
    pub open spec fn row(&self, i: int) -> Seq<T> {
        Seq::new(self.cols as nat, |k: int| self.at(i, k))
    }

    /// Column `j` as a sequence.
    pub open spec fn column(&self, j: int) -> Seq<T> {
        Seq::new(self.rows as nat, |k: int| self.at(k, j))
    }

    /// A matrix over the row-major storage `items`.
    pub fn create_matrix(items: Vec<T>, rows: usize, cols: usize) -> (r: Matrix<T>)
        requires
            items@.len() == rows * cols,
        ensures
            r.wf(),
            r.items@ == items@,
            r.rows == rows,
            r.cols == cols,
    {
        Matrix { items, rows, cols }
    }

    /// A `rows` by `cols` matrix with `value` everywhere.
    pub fn filled(rows: usize, cols: usize, value: T) -> (r: Matrix<T>)
        ensures
            r.wf(),
            r.rows == rows,
            r.cols == cols,
            forall|i: int, j: int| 0 <= i < rows && 0 <= j < cols ==> #[trigger] r.at(i, j) == value,
    {
        let entry = |i: usize, j: usize| -> (v: T)
            ensures
                v == value,
        {
            value
        };
        Matrix::from_fn(rows, cols, entry)
    }

    /// A column vector holding `items` from top to bottom.
    pub fn from_column(items: &Vec<T>) -> (r: Matrix<T>)
        ensures
            r.wf(),
            r.rows == items@.len(),
            r.cols == 1,
            forall|i: int| 0 <= i < items@.len() ==> #[trigger] r.at(i, 0) == items@[i],
    {
        let entry = |i: usize, j: usize| -> (v: T)
            requires
                i < items@.len(),
            ensures
                v == items@[i as int],
        {
            items[i]
        };
        Matrix::from_fn(items.len(), 1, entry)
    }

    /// The matrix whose row `i` is `items[i]`, with as many columns as the
    /// first row; `DimensionMismatch` when a row has another length.
    pub fn from_rows(items: &Vec<Vec<T>>) -> (r: Result<Matrix<T>, NetworkError>)
        requires
            items@.len() > 0,
        ensures
            (forall|i: int| 0 <= i < items@.len() ==> #[trigger] items@[i]@.len() == items@[0]@.len()) ==> {
                &&& r is Ok
                &&& r->Ok_0.wf()
                &&& r->Ok_0.rows == items@.len()
                &&& r->Ok_0.cols == items@[0]@.len()
                &&& forall|i: int, j: int|
                    0 <= i < items@.len() && 0 <= j < items@[0]@.len() ==> #[trigger] r->Ok_0.at(i, j) == items@[i]@[j]
            },
            !(forall|i: int| 0 <= i < items@.len() ==> #[trigger] items@[i]@.len() == items@[0]@.len()) ==> r is Err,
    {
        let rows = items.len();
        let cols = items[0].len();
        let mut k: usize = 0;
        while k < rows
            invariant
                rows == items@.len(),
                cols == items@[0]@.len(),
                k <= rows,
                forall|i: int| 0 <= i < k ==> #[trigger] items@[i]@.len() == cols,
            decreases rows - k,
        {
            if items[k].len() != cols {
                return Err(NetworkError::DimensionMismatch {
                    left_rows: rows,
                    left_cols: cols,
                    right_rows: 1,
                    right_cols: items[k].len(),
                });
            }
            k += 1;
        }
        let entry = |i: usize, j: usize| -> (v: T)
            requires
                i < items@.len(),
                j < items@[i as int]@.len(),
            ensures
                v == items@[i as int]@[j as int],
        {
            items[i][j]
        };
        Ok(Matrix::from_fn(rows, cols, entry))
    }

    /// The rows as nested vectors.
    pub fn to_arrays(&self) -> (r: Vec<Vec<T>>)
        requires
            self.wf(),
        ensures
            r@.len() == self.rows,
            forall|i: int| 0 <= i < self.rows ==> (#[trigger] r@[i])@ == self.row(i),
    {
        let mut result: Vec<Vec<T>> = Vec::new();
        let mut i: usize = 0;
        while i < self.rows
            invariant
                self.wf(),
                i <= self.rows,
                result@.len() == i,
                forall|a: int| 0 <= a < i ==> (#[trigger] result@[a])@ == self.row(a),
            decreases self.rows - i,
        {
            let mut line: Vec<T> = Vec::new();
            let mut j: usize = 0;
            while j < self.cols
                invariant
                    self.wf(),
                    i < self.rows,
                    j <= self.cols,
                    line@ == self.row(i as int).take(j as int),
                decreases self.cols - j,
            {
                line.push(self.items[self.offset(i, j)]);
                j += 1;
            }
            assert(line@ =~= self.row(i as int));
            result.push(line);
            i += 1;
        }
        result
    }

    /// Applies `mapper` to every entry together with its position: entry
    /// `(i, j)` of the result is `mapper(self[i][j], i, j)`.
    pub fn map<F: Fn(T, usize, usize) -> T>(&self, mapper: &F) -> (r: Matrix<T>)
        requires
            self.wf(),
            forall|x: T, i: usize, j: usize| i < self.rows && j < self.cols ==> #[trigger] mapper.requires((x, i, j)),
        ensures
            r.wf(),
            r.same_shape(self),
            forall|i: int, j: int|
                0 <= i < self.rows && 0 <= j < self.cols
                    ==> mapper.ensures((self.at(i, j), i as usize, j as usize), #[trigger] r.at(i, j)),
    {
        let entry = |i: usize, j: usize| -> (v: T)
            requires
                i < self.rows,
                j < self.cols,
            ensures
                mapper.ensures((self.at(i as int, j as int), i, j), v),
        {
            mapper(self.items[self.offset(i, j)], i, j)
        };
        Matrix::from_fn(self.rows, self.cols, entry)
    }

    /// Calls `iterator` with each entry of the first column and its row, from
    /// the top; `iterator` must accept every call in every state it can be
    /// in.
    pub fn iterate<F: FnMut(T, usize)>(&self, iterator: &mut F)
        requires
            self.wf(),
            self.cols >= 1,
            forall|f: F, x: T, i: usize| #[trigger] f.requires((x, i)),
    {
        let mut i: usize = 0;
        while i < self.rows
            invariant
                self.wf(),
                self.cols >= 1,
                i <= self.rows,
                forall|f: F, x: T, i: usize| #[trigger] f.requires((x, i)),
            decreases self.rows - i,
        {
            iterator(self.items[self.offset(i, 0)], i);
            i += 1;
        }
    }

    /// Combines the entries at equal positions: entry `(i, j)` of the result
    /// is `combine(self[i][j], m[i][j])`. `DimensionMismatch` unless both
    /// have the same shape.
    pub fn zip_with<F: Fn(T, T) -> T>(&self, m: &Matrix<T>, combine: &F) -> (r: Result<Matrix<T>, NetworkError>)
        requires
            self.wf(),
            m.wf(),
            forall|x: T, y: T| #[trigger] combine.requires((x, y)),
        ensures
            !self.same_shape(m) ==> r == Err::<Matrix<T>, NetworkError>(mismatch(self.rows, self.cols, m.rows, m.cols)),
            self.same_shape(m) ==> {
                &&& r is Ok
                &&& r->Ok_0.wf()
                &&& r->Ok_0.is_zip_of(self, m, *combine)
            },
    {
        if self.rows != m.rows || self.cols != m.cols {
            return Err(NetworkError::DimensionMismatch {
                left_rows: self.rows,
                left_cols: self.cols,
                right_rows: m.rows,
                right_cols: m.cols,
            });
        }
        let entry = |i: usize, j: usize| -> (v: T)
            requires
                i < self.rows,
                j < self.cols,
            ensures
                combine.ensures((self.at(i as int, j as int), m.at(i as int, j as int)), v),
        {
            combine(self.items[self.offset(i, j)], m.items[m.offset(i, j)])
        };
        Ok(Matrix::from_fn(self.rows, self.cols, entry))
    }
}

/// `sums` holds the successive results of folding `step` from `zero` over
/// the first `n` pairs of `row` and `col`: `sums[0] == zero` and
/// `sums[k + 1] == step(sums[k], row[k], col[k])`.
pub open spec fn dot_chain<T, F: Fn(T, T, T) -> T>(step: F, zero: T, row: Seq<T>, col: Seq<T>, n: nat, sums: Seq<T>) -> bool {
    &&& sums.len() == n + 1
    &&& sums[0] == zero
    &&& forall|k: int| 0 <= k < n ==> step.ensures((sums[k], row[k], col[k]), #[trigger] sums[k + 1])
}

/// `v` is what folding `step` from `zero` over the first `n` pairs of `row`
/// and `col` yields: `step(..step(step(zero, row[0], col[0]), row[1],
/// col[1]).., row[n-1], col[n-1])`.
pub open spec fn is_dot<T, F: Fn(T, T, T) -> T>(step: F, zero: T, row: Seq<T>, col: Seq<T>, n: nat, v: T) -> bool {
    exists|sums: Seq<T>| #[trigger] dot_chain(step, zero, row, col, n, sums) && sums[n as int] == v
}

/// The column of a matrix that column `j` comes from once column `omitted`
/// is removed.
pub open spec fn kept_column(j: int, omitted: int) -> int {
    if j < omitted { j } else { j + 1 }
}

impl<T: Copy> Matrix<T> {
    /// The matrix without column `col`. `DimensionMismatch` when the matrix
    /// has a single column (or none), `IndexOutOfRange` when `col` is not
    /// one of its columns.
    pub fn omit(&self, col: usize) -> (r: Result<Matrix<T>, NetworkError>)
        requires
            self.wf(),
        ensures
            self.cols <= 1 ==> r == Err::<Matrix<T>, NetworkError>(mismatch(self.rows, self.cols, self.rows, 2)),
            self.cols > 1 && col >= self.cols ==> r == Err::<Matrix<T>, NetworkError>(NetworkError::IndexOutOfRange),
            self.cols > 1 && col < self.cols ==> {
                &&& r is Ok
                &&& r->Ok_0.wf()
                &&& r->Ok_0.rows == self.rows
                &&& r->Ok_0.cols == self.cols - 1
                &&& forall|i: int, j: int|
                    0 <= i < self.rows && 0 <= j < self.cols - 1
                        ==> #[trigger] r->Ok_0.at(i, j) == self.at(i, kept_column(j, col as int))
            },
    {
        if self.cols <= 1 {
            return Err(NetworkError::DimensionMismatch {
                left_rows: self.rows,
                left_cols: self.cols,
                right_rows: self.rows,
                right_cols: 2,
            });
        }
        if col >= self.cols {
            return Err(NetworkError::IndexOutOfRange);
        }
        let entry = |i: usize, j: usize| -> (v: T)
            requires
                i < self.rows,
                j < self.cols - 1,
            ensures
                v == self.at(i as int, kept_column(j as int, col as int)),
        {
            let source = if j < col { j } else { j + 1 };
            self.items[self.offset(i, source)]
        };
        Ok(Matrix::from_fn(self.rows, self.cols - 1, entry))
    }

    /// The column vector with `value` put on top. `DimensionMismatch` unless
    /// the matrix is a column vector.
    pub fn unshift(&self, value: T) -> (r: Result<Matrix<T>, NetworkError>)
        requires
            self.wf(),
            self.rows < usize::MAX,
        ensures
            self.cols != 1 ==> r == Err::<Matrix<T>, NetworkError>(mismatch(self.rows, self.cols, self.rows, 1)),
            self.cols == 1 ==> {
                &&& r is Ok
                &&& r->Ok_0.wf()
                &&& r->Ok_0.rows == self.rows + 1
                &&& r->Ok_0.cols == 1
                &&& r->Ok_0.at(0, 0) == value
                &&& forall|i: int| 0 <= i < self.rows ==> #[trigger] r->Ok_0.at(i + 1, 0) == self.at(i, 0)
            },
    {
        if self.cols != 1 {
            return Err(NetworkError::DimensionMismatch {
                left_rows: self.rows,
                left_cols: self.cols,
                right_rows: self.rows,
                right_cols: 1,
            });
        }
        let entry = |i: usize, j: usize| -> (v: T)
            requires
                i < self.rows + 1,
                j < 1,
            ensures
                i == 0 ==> v == value,
                i > 0 ==> v == self.at(i - 1, 0),
        {
            if i == 0 {
                value
            } else {
                self.items[self.offset(i - 1, 0)]
            }
        };
        let r = Matrix::from_fn(self.rows + 1, 1, entry);
        assert forall|i: int| 0 <= i < self.rows implies #[trigger] r.at(i + 1, 0) == self.at(i, 0) by {
            assert(entry.ensures(((i + 1) as usize, 0usize), r.at(i + 1, 0)));
        }
        Ok(r)
    }

    /// The fold of `step` along row `i` of `self` and column `j` of `m`.
    fn dot<F: Fn(T, T, T) -> T>(&self, m: &Matrix<T>, i: usize, j: usize, zero: T, step: &F) -> (v: T)
        requires
            self.wf(),
            m.wf(),
            self.cols == m.rows,
            i < self.rows,
            j < m.cols,
            forall|a: T, x: T, y: T| #[trigger] step.requires((a, x, y)),
        ensures
            is_dot(*step, zero, self.row(i as int), m.column(j as int), self.cols as nat, v),
    {
        let mut acc = zero;
        let ghost mut sums: Seq<T> = seq![zero];
        let mut k: usize = 0;
        while k < self.cols
            invariant
                self.wf(),
                m.wf(),
                self.cols == m.rows,
                i < self.rows,
                j < m.cols,
                forall|a: T, x: T, y: T| #[trigger] step.requires((a, x, y)),
                k <= self.cols,
                dot_chain(*step, zero, self.row(i as int), m.column(j as int), k as nat, sums),
                sums[k as int] == acc,
            decreases self.cols - k,
        {
            let x = self.items[self.offset(i, k)];
            let y = m.items[m.offset(k, j)];
            let next = step(acc, x, y);
            proof {
                let row = self.row(i as int);
                let col = m.column(j as int);
                assert(row[k as int] == x);
                assert(col[k as int] == y);
                let prev = sums;
                sums = sums.push(next);
                assert forall|q: int| 0 <= q < k + 1 implies (*step).ensures((sums[q], row[q], col[q]), #[trigger] sums[q + 1]) by {
                    if q < k {
                        assert(sums[q] == prev[q] && sums[q + 1] == prev[q + 1]);
                    }
                }
            }
            acc = next;
            k += 1;
        }
        assert(dot_chain(*step, zero, self.row(i as int), m.column(j as int), self.cols as nat, sums));
        acc
    }

    /// The matrix product with `step` as the multiply-accumulate: entry
    /// `(i, j)` folds `step` from `zero` along row `i` here and column `j`
    /// of `m`. `DimensionMismatch` unless `self.cols == m.rows`.
    pub fn multiply_with<F: Fn(T, T, T) -> T>(&self, m: &Matrix<T>, zero: T, step: &F) -> (r: Result<Matrix<T>, NetworkError>)
        requires
            self.wf(),
            m.wf(),
            forall|a: T, x: T, y: T| #[trigger] step.requires((a, x, y)),
        ensures
            self.cols != m.rows ==> r == Err::<Matrix<T>, NetworkError>(mismatch(self.rows, self.cols, m.rows, m.cols)),
            self.cols == m.rows ==> {
                &&& r is Ok
                &&& r->Ok_0.wf()
                &&& r->Ok_0.rows == self.rows
                &&& r->Ok_0.cols == m.cols
                &&& forall|i: int, j: int|
                    0 <= i < self.rows && 0 <= j < m.cols
                        ==> is_dot(*step, zero, self.row(i), m.column(j), self.cols as nat, #[trigger] r->Ok_0.at(i, j))
            },
    {
        if self.cols != m.rows {
            return Err(NetworkError::DimensionMismatch {
                left_rows: self.rows,
                left_cols: self.cols,
                right_rows: m.rows,
                right_cols: m.cols,
            });
        }
        let entry = |i: usize, j: usize| -> (v: T)
            requires
                i < self.rows,
                j < m.cols,
            ensures
                is_dot(*step, zero, self.row(i as int), m.column(j as int), self.cols as nat, v),
        {
            self.dot(m, i, j, zero, step)
        };
        Ok(Matrix::from_fn(self.rows, m.cols, entry))
    }
}

/// `sum_k row[k] * col[k]` over the first `n` pairs, summed from the left
/// starting at zero.
pub open spec fn dot<T: Scalar>(row: Seq<T>, col: Seq<T>, n: nat) -> T
    decreases n,
{
    if n == 0 {
        T::spec_zero()
    } else {
        dot(row, col, (n - 1) as nat).spec_plus(row[n - 1].spec_times(col[n - 1]))
    }
}

/// A fold whose step adds a product is the left sum of products.
proof fn lemma_chain_is_dot<T: Scalar, F: Fn(T, T, T) -> T>(step: F, row: Seq<T>, col: Seq<T>, n: nat, sums: Seq<T>, k: nat)
    requires
        dot_chain(step, T::spec_zero(), row, col, n, sums),
        forall|a: T, x: T, y: T, v: T| step.ensures((a, x, y), v) ==> v == a.spec_plus(x.spec_times(y)),
        k <= n,
    ensures
        sums[k as int] == dot(row, col, k),
    decreases k,
{
    if k > 0 {
        lemma_chain_is_dot(step, row, col, n, sums, (k - 1) as nat);
        let q = k - 1;
        assert(step.ensures((sums[q], row[q], col[q]), sums[q + 1]));
    }
}

impl<T: Scalar> Matrix<T> {
    /// `self` is the product of `a` and `b`: entry `(i, j)` is the left sum
    /// of `a[i][k] * b[k][j]` over `k`.
    pub open spec fn is_product_of(&self, a: &Matrix<T>, b: &Matrix<T>) -> bool {
        &&& self.rows == a.rows
        &&& self.cols == b.cols
        &&& forall|i: int, j: int|
            0 <= i < self.rows && 0 <= j < self.cols ==> #[trigger] self.at(i, j) == dot(a.row(i), b.column(j), a.cols as nat)
    }

    /// The entrywise sum. `DimensionMismatch` unless both have the same shape.
    pub fn sum(&self, m: &Matrix<T>) -> (r: Result<Matrix<T>, NetworkError>)
        requires
            self.wf(),
            m.wf(),
        ensures
            !self.same_shape(m) ==> r == Err::<Matrix<T>, NetworkError>(mismatch(self.rows, self.cols, m.rows, m.cols)),
            self.same_shape(m) ==> {
                &&& r is Ok
                &&& r->Ok_0.wf()
                &&& r->Ok_0.same_shape(self)
                &&& forall|i: int, j: int| 0 <= i < self.rows && 0 <= j < self.cols
                    ==> #[trigger] r->Ok_0.at(i, j) == self.at(i, j).spec_plus(m.at(i, j))
            },
    {
        let add = |x: T, y: T| -> (v: T)
            ensures
                v == x.spec_plus(y),
        {
            x.plus(y)
        };
        self.zip_with(m, &add)
    }

    /// The entrywise difference `self - m`. `DimensionMismatch` unless both
    /// have the same shape.
    pub fn subtract(&self, m: &Matrix<T>) -> (r: Result<Matrix<T>, NetworkError>)
        requires
            self.wf(),
            m.wf(),
        ensures
            !self.same_shape(m) ==> r == Err::<Matrix<T>, NetworkError>(mismatch(self.rows, self.cols, m.rows, m.cols)),
            self.same_shape(m) ==> {
                &&& r is Ok
                &&& r->Ok_0.wf()
                &&& r->Ok_0.same_shape(self)
                &&& forall|i: int, j: int| 0 <= i < self.rows && 0 <= j < self.cols
                    ==> #[trigger] r->Ok_0.at(i, j) == self.at(i, j).spec_minus(m.at(i, j))
            },
    {
        let sub = |x: T, y: T| -> (v: T)
            ensures
                v == x.spec_minus(y),
        {
            x.minus(y)
        };
        self.zip_with(m, &sub)
    }

    /// The entrywise product. `DimensionMismatch` unless both have the same
    /// shape.
    pub fn hadamard(&self, m: &Matrix<T>) -> (r: Result<Matrix<T>, NetworkError>)
        requires
            self.wf(),
            m.wf(),
        ensures
            !self.same_shape(m) ==> r == Err::<Matrix<T>, NetworkError>(mismatch(self.rows, self.cols, m.rows, m.cols)),
            self.same_shape(m) ==> {
                &&& r is Ok
                &&& r->Ok_0.wf()
                &&& r->Ok_0.same_shape(self)
                &&& forall|i: int, j: int| 0 <= i < self.rows && 0 <= j < self.cols
                    ==> #[trigger] r->Ok_0.at(i, j) == self.at(i, j).spec_times(m.at(i, j))
            },
    {
        let mul = |x: T, y: T| -> (v: T)
            ensures
                v == x.spec_times(y),
        {
            x.times(y)
        };
        self.zip_with(m, &mul)
    }

    /// Every entry multiplied by `value`, as `value * x`.
    pub fn scale(&self, value: T) -> (r: Matrix<T>)
        requires
            self.wf(),
        ensures
            r.wf(),
            r.same_shape(self),
            forall|i: int, j: int| 0 <= i < self.rows && 0 <= j < self.cols
                ==> #[trigger] r.at(i, j) == value.spec_times(self.at(i, j)),
    {
        let times = |x: T, i: usize, j: usize| -> (v: T)
            ensures
                v == value.spec_times(x),
        {
            value.times(x)
        };
        self.map(&times)
    }

    /// The matrix product `self · m`, each entry summed from the left
    /// starting at zero. `DimensionMismatch` unless `self.cols == m.rows`.
    pub fn multiply(&self, m: &Matrix<T>) -> (r: Result<Matrix<T>, NetworkError>)
        requires
            self.wf(),
            m.wf(),
        ensures
            self.cols != m.rows ==> r == Err::<Matrix<T>, NetworkError>(mismatch(self.rows, self.cols, m.rows, m.cols)),
            self.cols == m.rows ==> {
                &&& r is Ok
                &&& r->Ok_0.wf()
                &&& r->Ok_0.is_product_of(self, m)
            },
    {
        let step = |acc: T, x: T, y: T| -> (v: T)
            ensures
                v == acc.spec_plus(x.spec_times(y)),
        {
            acc.plus(x.times(y))
        };
        let r = self.multiply_with(m, T::zero(), &step);
        proof {
            if self.cols == m.rows {
                let p = r->Ok_0;
                assert forall|i: int, j: int| 0 <= i < p.rows && 0 <= j < p.cols
                    implies #[trigger] p.at(i, j) == dot(self.row(i), m.column(j), self.cols as nat) by {
                    let sums = choose|sums: Seq<T>| #[trigger] dot_chain(step, T::spec_zero(), self.row(i), m.column(j), self.cols as nat, sums)
                        && sums[self.cols as int] == p.at(i, j);
                    lemma_chain_is_dot(step, self.row(i), m.column(j), self.cols as nat, sums, self.cols as nat);
                }
            }
        }
        r
    }
}

/// The entrywise product is the same either way round, given that the
/// number type's product is (as IEEE multiplication is).
pub proof fn lemma_hadamard_commutes<T: Scalar>(a: Matrix<T>, b: Matrix<T>, ab: Matrix<T>, ba: Matrix<T>)
    requires
        a.same_shape(&b),
        ab.same_shape(&a),
        ba.same_shape(&b),
        forall|i: int, j: int| 0 <= i < a.rows && 0 <= j < a.cols ==> #[trigger] ab.at(i, j) == a.at(i, j).spec_times(b.at(i, j)),
        forall|i: int, j: int| 0 <= i < a.rows && 0 <= j < a.cols ==> #[trigger] ba.at(i, j) == b.at(i, j).spec_times(a.at(i, j)),
        forall|x: T, y: T| #[trigger] x.spec_times(y) == y.spec_times(x),
    ensures
        ab.same_entries(&ba),
{
    assert forall|i: int, j: int| 0 <= i < ab.rows && 0 <= j < ab.cols implies #[trigger] ab.at(i, j) == ba.at(i, j) by {
        assert(a.at(i, j).spec_times(b.at(i, j)) == b.at(i, j).spec_times(a.at(i, j)));
    }
}

/// The entrywise sum is the same either way round, given that the number
/// type's sum is (as IEEE addition is).
pub proof fn lemma_sum_commutes<T: Scalar>(a: Matrix<T>, b: Matrix<T>, ab: Matrix<T>, ba: Matrix<T>)
    requires
        a.same_shape(&b),
        ab.same_shape(&a),
        ba.same_shape(&b),
        forall|i: int, j: int| 0 <= i < a.rows && 0 <= j < a.cols ==> #[trigger] ab.at(i, j) == a.at(i, j).spec_plus(b.at(i, j)),
        forall|i: int, j: int| 0 <= i < a.rows && 0 <= j < a.cols ==> #[trigger] ba.at(i, j) == b.at(i, j).spec_plus(a.at(i, j)),
        forall|x: T, y: T| #[trigger] x.spec_plus(y) == y.spec_plus(x),
    ensures
        ab.same_entries(&ba),
{
    assert forall|i: int, j: int| 0 <= i < ab.rows && 0 <= j < ab.cols implies #[trigger] ab.at(i, j) == ba.at(i, j) by {
        assert(a.at(i, j).spec_plus(b.at(i, j)) == b.at(i, j).spec_plus(a.at(i, j)));
    }
}

/// Transposing twice gives back the matrix, entry for entry.
pub proof fn lemma_transpose_twice<T: Copy>(a: Matrix<T>, t: Matrix<T>, tt: Matrix<T>)
    requires
        t.is_transpose_of(&a),
        tt.is_transpose_of(&t),
    ensures
        tt.same_entries(&a),
{
}

} // verus!
