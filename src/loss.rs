use vstd::prelude::*;
use crate::failure::{NetworkError, mismatch};
use crate::matrix::{Matrix, dot};
use crate::scalar::Scalar;

verus! {

/// The loss functions an output layer can be scored with.
#[derive(Debug, Clone, Copy, PartialEq, Eq, Structural)]
pub enum ErrorFunctionKey {
    CrossEntropy,
    MeanSquared,
    LogLoss,
}

/// Whether an output and an expected output can be compared: two column
/// vectors of the same non-zero length.
pub open spec fn comparable<T: Copy>(output: &Matrix<T>, expected: &Matrix<T>) -> bool {
    &&& output.cols == 1
    &&& expected.cols == 1
    &&& output.rows == expected.rows
    &&& output.rows > 0
}

/// `sum_k (out[k] - exp[k])^2` over the first `n` entries, from the left
/// starting at zero.
pub open spec fn squared_error<T: Scalar>(out: Seq<T>, exp: Seq<T>, n: nat) -> T
    decreases n,
{
    if n == 0 {
        T::spec_zero()
    } else {
        let d = out[n - 1].spec_minus(exp[n - 1]);
        squared_error(out, exp, (n - 1) as nat).spec_plus(d.spec_times(d))
    }
}

/// The entries of `out` with the natural logarithm applied.
pub open spec fn logs<T: Scalar>(out: Seq<T>) -> Seq<T> {
    Seq::new(out.len(), |k: int| out[k].spec_ln())
}

/// The loss of the output vector `out` against `exp`.
pub open spec fn spec_loss<T: Scalar>(key: ErrorFunctionKey, out: Seq<T>, exp: Seq<T>) -> T {
    match key {
        ErrorFunctionKey::MeanSquared => squared_error(out, exp, out.len()),
        ErrorFunctionKey::LogLoss => {
            let t = out[0];
            let y = exp[0];
            let one = T::spec_one();
            y.spec_times(t.spec_ln()).spec_plus(one.spec_minus(y).spec_times(one.spec_minus(t).spec_ln())).spec_neg()
        },
        ErrorFunctionKey::CrossEntropy => dot(logs(out), exp, out.len()).spec_neg(),
    }
}

/// Entry `i` of the loss gradient with respect to `out`.
pub open spec fn grad_entry<T: Scalar>(key: ErrorFunctionKey, out: Seq<T>, exp: Seq<T>, i: int) -> T {
    match key {
        ErrorFunctionKey::MeanSquared => out[i].spec_minus(exp[i]),
        ErrorFunctionKey::LogLoss => {
            let t = out[0];
            let y = exp[0];
            t.spec_minus(y).spec_div(t.spec_minus(t.spec_times(t)))
        },
        ErrorFunctionKey::CrossEntropy => exp[i].spec_div(out[i]).spec_neg(),
    }
}

/// Checks `comparable`, reporting both shapes when it fails.
fn check_comparable<T: Copy>(output: &Matrix<T>, expected: &Matrix<T>) -> (r: Result<(), NetworkError>)
    ensures
        comparable(output, expected) ==> r is Ok,
        !comparable(output, expected) ==> r == Err::<(), NetworkError>(mismatch(output.rows, output.cols, expected.rows, expected.cols)),
{
    if output.cols != 1 || expected.cols != 1 || output.rows != expected.rows || output.rows == 0 {
        Err(NetworkError::DimensionMismatch {
            left_rows: output.rows,
            left_cols: output.cols,
            right_rows: expected.rows,
            right_cols: expected.cols,
        })
    } else {
        Ok(())
    }
}

/// The loss of `output` against `expected`:
/// mean squared: `sum_i (t_i - y_i)^2`;
/// log loss (first entry only): `-(y ln t + (1 - y) ln(1 - t))`;
/// cross-entropy: `-(ln t)ᵀ · y`.
/// `DimensionMismatch` unless the two are `comparable`.
pub fn loss<T: Scalar>(key: ErrorFunctionKey, output: &Matrix<T>, expected: &Matrix<T>) -> (r: Result<T, NetworkError>)
    requires
        output.wf(),
        expected.wf(),
    ensures
        comparable(output, expected) ==> r == Ok::<T, NetworkError>(spec_loss(key, output.column(0), expected.column(0))),
        !comparable(output, expected) ==> r == Err::<T, NetworkError>(mismatch(output.rows, output.cols, expected.rows, expected.cols)),
{
    check_comparable(output, expected)?;
    let ghost o = output.column(0);
    let ghost e = expected.column(0);
    match key {
        ErrorFunctionKey::MeanSquared => {
            let mut total = T::zero();
            let mut i: usize = 0;
            while i < output.rows
                invariant
                    output.wf(),
                    expected.wf(),
                    comparable(output, expected),
                    o == output.column(0),
                    e == expected.column(0),
                    i <= output.rows,
                    total == squared_error(o, e, i as nat),
                decreases output.rows - i,
            {
                assert(output.items[i as int] == o[i as int] && expected.items[i as int] == e[i as int]);
                let diff = output.items[i].minus(expected.items[i]);
                total = total.plus(diff.times(diff));
                i += 1;
            }
            Ok(total)
        },
        ErrorFunctionKey::LogLoss => {
            let t = output.items[0];
            let y = expected.items[0];
            assert(t == o[0] && y == e[0]);
            let one = T::one();
            Ok(y.times(t.ln()).plus(one.minus(y).times(one.minus(t).ln())).negated())
        },
        ErrorFunctionKey::CrossEntropy => {
            let logged = output.map(&|x: T, i: usize, j: usize| -> (v: T) ensures v == x.spec_ln() { x.ln() }).transpose();
            let product = logged.multiply(expected)?;
            proof {
                assert(logged.row(0) =~= logs(o));
                assert(product.at(0, 0) == dot(logged.row(0), expected.column(0), logged.cols as nat));
            }
            Ok(product.items[0].negated())
        },
    }
}

/// The gradient of the loss with respect to `output`:
/// mean squared: `t_i - y_i`;
/// log loss (a single entry): `(t - y) / (t - t^2)`;
/// cross-entropy: `-y_i / t_i`.
/// `DimensionMismatch` unless the two are `comparable`.
pub fn grad<T: Scalar>(key: ErrorFunctionKey, output: &Matrix<T>, expected: &Matrix<T>) -> (r: Result<Matrix<T>, NetworkError>)
    requires
        output.wf(),
        expected.wf(),
    ensures
        !comparable(output, expected) ==> r == Err::<Matrix<T>, NetworkError>(mismatch(output.rows, output.cols, expected.rows, expected.cols)),
        comparable(output, expected) ==> {
            &&& r is Ok
            &&& r->Ok_0.wf()
            &&& r->Ok_0.cols == 1
            &&& r->Ok_0.rows == if key == ErrorFunctionKey::LogLoss { 1 } else { output.rows as int }
            &&& forall|i: int| 0 <= i < r->Ok_0.rows
                ==> #[trigger] r->Ok_0.at(i, 0) == grad_entry(key, output.column(0), expected.column(0), i)
        },
{
    check_comparable(output, expected)?;
    match key {
        ErrorFunctionKey::MeanSquared => output.subtract(expected),
        ErrorFunctionKey::LogLoss => {
            let t = output.items[0];
            let y = expected.items[0];
            assert(t == output.column(0)[0] && y == expected.column(0)[0]);
            let value = t.minus(y).divided_by(t.minus(t.times(t)));
            Ok(Matrix::filled(1, 1, value))
        },
        ErrorFunctionKey::CrossEntropy => {
            let entry = |t: T, i: usize, j: usize| -> (v: T)
                requires
                    expected.wf(),
                    expected.cols == 1,
                    i < expected.rows,
                ensures
                    v == expected.at(i as int, 0).spec_div(t).spec_neg(),
            {
                expected.items[i].divided_by(t).negated()
            };
            Ok(output.map(&entry))
        },
    }
}

} // verus!
