use vstd::prelude::*;
use crate::failure::{NetworkError, mismatch};
use crate::matrix::Matrix;
use crate::scalar::Scalar;

verus! {

/// The activation functions a layer can apply to its weighted sums.
#[derive(Debug, Clone, Copy, PartialEq, Eq, Structural)]
pub enum ActivationFunctionKey {
    Sigmoid,
    TanH,
    ReLu,
    Softmax,
}

/// `max(0, x)`, as `x` if `x > 0`, else zero.
pub open spec fn spec_relu<T: Scalar>(x: T) -> T {
    if x.spec_exceeds(T::spec_zero()) { x } else { T::spec_zero() }
}

/// One for positive `x`, else zero.
pub open spec fn spec_relu_derivative<T: Scalar>(x: T) -> T {
    if x.spec_exceeds(T::spec_zero()) { T::spec_one() } else { T::spec_zero() }
}

/// `(e^x - e^-x) / (e^x + e^-x)`.
pub open spec fn spec_tanh<T: Scalar>(x: T) -> T {
    let up = x.spec_exp();
    let down = x.spec_neg().spec_exp();
    up.spec_minus(down).spec_div(up.spec_plus(down))
}

/// `1 - tanh(x)^2`.
pub open spec fn spec_tanh_derivative<T: Scalar>(x: T) -> T {
    T::spec_one().spec_minus(spec_tanh(x).spec_times(spec_tanh(x)))
}

/// `1 / (1 + e^-x)`.
pub open spec fn spec_sigmoid<T: Scalar>(x: T) -> T {
    T::spec_one().spec_div(T::spec_one().spec_plus(x.spec_neg().spec_exp()))
}

/// `sigmoid(x) * (1 - sigmoid(x))`.
pub open spec fn spec_sigmoid_derivative<T: Scalar>(x: T) -> T {
    spec_sigmoid(x).spec_times(T::spec_one().spec_minus(spec_sigmoid(x)))
}

/// The scalar function of `key` (softmax has none; it leaves `x`).
pub open spec fn scalar_forward<T: Scalar>(key: ActivationFunctionKey, x: T) -> T {
    match key {
        ActivationFunctionKey::Sigmoid => spec_sigmoid(x),
        ActivationFunctionKey::TanH => spec_tanh(x),
        ActivationFunctionKey::ReLu => spec_relu(x),
        ActivationFunctionKey::Softmax => x,
    }
}

/// The derivative of the scalar function of `key` (softmax has none; it
/// leaves `x`).
pub open spec fn scalar_backward<T: Scalar>(key: ActivationFunctionKey, x: T) -> T {
    match key {
        ActivationFunctionKey::Sigmoid => spec_sigmoid_derivative(x),
        ActivationFunctionKey::TanH => spec_tanh_derivative(x),
        ActivationFunctionKey::ReLu => spec_relu_derivative(x),
        ActivationFunctionKey::Softmax => x,
    }
}

/// `max(0, x)`.
fn relu_fn<T: Scalar>(x: T) -> (r: T)
    ensures
        r == spec_relu(x),
{
    if x.exceeds(T::zero()) {
        x
    } else {
        T::zero()
    }
}

/// The derivative of `relu_fn`: one for positive `x`, else zero.
fn relu_derivative<T: Scalar>(x: T) -> (r: T)
    ensures
        r == spec_relu_derivative(x),
{
    if x.exceeds(T::zero()) {
        T::one()
    } else {
        T::zero()
    }
}

/// `(e^x - e^-x) / (e^x + e^-x)`.
pub fn tanh_fn<T: Scalar>(x: T) -> (r: T)
    ensures
        r == spec_tanh(x),
{
    let up = x.exp();
    let down = x.negated().exp();
    up.minus(down).divided_by(up.plus(down))
}

/// `1 - tanh(x)^2`.
fn tanh_derivative<T: Scalar>(x: T) -> (r: T)
    ensures
        r == spec_tanh_derivative(x),
{
    let t = tanh_fn(x);
    T::one().minus(t.times(t))
}

/// `1 / (1 + e^-x)`.
pub fn sigmoid_fn<T: Scalar>(x: T) -> (r: T)
    ensures
        r == spec_sigmoid(x),
{
    let divisor = T::one().plus(x.negated().exp());
    T::one().divided_by(divisor)
}

/// `sigmoid(x) * (1 - sigmoid(x))`.
fn sigmoid_derivative<T: Scalar>(x: T) -> (r: T)
    ensures
        r == spec_sigmoid_derivative(x),
{
    sigmoid_fn(x).times(T::one().minus(sigmoid_fn(x)))
}

/// Whether `m` is a column vector with at least one entry.
pub open spec fn is_nonempty_column<T: Copy>(m: &Matrix<T>) -> bool {
    m.cols == 1 && m.rows > 0
}

/// The running maximum of the first `n` entries of `v`, starting from
/// `v[0]` and replaced by each entry that exceeds it.
pub open spec fn running_max<T: Scalar>(v: Seq<T>, n: nat) -> T
    decreases n,
{
    if n == 0 {
        v[0]
    } else {
        let m = running_max(v, (n - 1) as nat);
        if v[n - 1].spec_exceeds(m) { v[n - 1] } else { m }
    }
}

/// `sum_k e^(v[k] - mx)` over the first `n` entries, from the left starting
/// at zero.
pub open spec fn exp_total<T: Scalar>(v: Seq<T>, mx: T, n: nat) -> T
    decreases n,
{
    if n == 0 {
        T::spec_zero()
    } else {
        exp_total(v, mx, (n - 1) as nat).spec_plus(v[n - 1].spec_minus(mx).spec_exp())
    }
}

/// Entry `i` of the softmax of `v`: `e^(v[i] - max) / sum_k e^(v[k] - max)`.
pub open spec fn softmax_entry<T: Scalar>(v: Seq<T>, i: int) -> T {
    let mx = running_max(v, v.len());
    v[i].spec_minus(mx).spec_exp().spec_div(exp_total(v, mx, v.len()))
}

/// The softmax of a column vector, stabilized by its largest entry:
/// entry `i` is `e^(x_i - max) / sum_j e^(x_j - max)`.
pub fn softmax_fn<T: Scalar>(vector: &Matrix<T>) -> (r: Matrix<T>)
    requires
        vector.wf(),
        is_nonempty_column(vector),
    ensures
        r.wf(),
        r.same_shape(vector),
        forall|i: int| 0 <= i < vector.rows ==> #[trigger] r.at(i, 0) == softmax_entry(vector.column(0), i),
{
    let ghost v = vector.column(0);
    let mut max = vector.items[0];
    let mut i: usize = 0;
    while i < vector.rows
        invariant
            vector.wf(),
            is_nonempty_column(vector),
            v == vector.column(0),
            i <= vector.rows,
            max == running_max(v, i as nat),
        decreases vector.rows - i,
    {
        let value = vector.items[i];
        assert(value == v[i as int]);
        if value.exceeds(max) {
            max = value;
        }
        i += 1;
    }
    let mut total = T::zero();
    let mut k: usize = 0;
    while k < vector.rows
        invariant
            vector.wf(),
            is_nonempty_column(vector),
            v == vector.column(0),
            k <= vector.rows,
            max == running_max(v, v.len()),
            total == exp_total(v, max, k as nat),
        decreases vector.rows - k,
    {
        assert(vector.items[k as int] == v[k as int]);
        total = total.plus(vector.items[k].minus(max).exp());
        k += 1;
    }
    let entry = |x: T, i: usize, j: usize| -> (e: T)
        ensures
            e == x.spec_minus(max).spec_exp().spec_div(total),
    {
        x.minus(max).exp().divided_by(total)
    };
    vector.map(&entry)
}

/// Applies the scalar form of `key` to every entry (softmax has none: it
/// works on a whole column, see `softmax_fn`).
fn apply_scalar<T: Scalar>(key: ActivationFunctionKey, sum: &Matrix<T>) -> (r: Matrix<T>)
    requires
        sum.wf(),
        key != ActivationFunctionKey::Softmax,
    ensures
        r.wf(),
        r.same_shape(sum),
        forall|i: int, j: int| 0 <= i < sum.rows && 0 <= j < sum.cols ==> #[trigger] r.at(i, j) == scalar_forward(key, sum.at(i, j)),
{
    match key {
        ActivationFunctionKey::Sigmoid => sum.map(&|x: T, i: usize, j: usize| -> (v: T) ensures v == spec_sigmoid(x) { sigmoid_fn(x) }),
        ActivationFunctionKey::TanH => sum.map(&|x: T, i: usize, j: usize| -> (v: T) ensures v == spec_tanh(x) { tanh_fn(x) }),
        _ => sum.map(&|x: T, i: usize, j: usize| -> (v: T) ensures v == spec_relu(x) { relu_fn(x) }),
    }
}

/// Entry `(i, j)` of the activation of `sum` before any bias row.
pub open spec fn activated_entry<T: Scalar>(key: ActivationFunctionKey, sum: &Matrix<T>, i: int, j: int) -> T {
    if key == ActivationFunctionKey::Softmax {
        softmax_entry(sum.column(0), i)
    } else {
        scalar_forward(key, sum.at(i, j))
    }
}

/// `r` is the activation of `sum`: on the output layer entry by entry; on
/// a hidden layer a column with a bias entry of one on top.
pub open spec fn is_activation_of<T: Scalar>(r: &Matrix<T>, key: ActivationFunctionKey, sum: &Matrix<T>, is_output: bool) -> bool {
    if is_output {
        &&& r.same_shape(sum)
        &&& forall|i: int, j: int| 0 <= i < sum.rows && 0 <= j < sum.cols ==> #[trigger] r.at(i, j) == activated_entry(key, sum, i, j)
    } else {
        &&& r.rows == sum.rows + 1
        &&& r.cols == 1
        &&& r.at(0, 0) == T::spec_one()
        &&& forall|i: int| 0 <= i < sum.rows ==> #[trigger] r.at(i + 1, 0) == activated_entry(key, sum, i, 0)
    }
}

/// The sigmoid's derivative is its output times one minus its output:
/// wherever `f` is the sigmoid activation of `sum` and `b` its backward
/// transform, `b[i][j] == f[i][j] * (1 - f[i][j])`.
pub proof fn lemma_sigmoid_backward_from_forward<T: Scalar>(sum: Matrix<T>, f: Matrix<T>, b: Matrix<T>)
    requires
        is_activation_of(&f, ActivationFunctionKey::Sigmoid, &sum, true),
        b.same_shape(&sum),
        forall|i: int, j: int| 0 <= i < sum.rows && 0 <= j < sum.cols
            ==> #[trigger] b.at(i, j) == scalar_backward(ActivationFunctionKey::Sigmoid, sum.at(i, j)),
    ensures
        forall|i: int, j: int| 0 <= i < sum.rows && 0 <= j < sum.cols
            ==> #[trigger] b.at(i, j) == f.at(i, j).spec_times(T::spec_one().spec_minus(f.at(i, j))),
{
    assert forall|i: int, j: int| 0 <= i < sum.rows && 0 <= j < sum.cols
        implies #[trigger] b.at(i, j) == f.at(i, j).spec_times(T::spec_one().spec_minus(f.at(i, j))) by {
        assert(f.at(i, j) == activated_entry(ActivationFunctionKey::Sigmoid, &sum, i, j));
    }
}

/// Whether `forward` succeeds on `sum`: a hidden layer's result gets a bias
/// row, which only a column vector can take, and softmax needs a non-empty
/// column vector.
pub open spec fn forward_accepts<T: Copy>(key: ActivationFunctionKey, sum: &Matrix<T>, is_output: bool) -> bool {
    &&& (!is_output ==> sum.cols == 1)
    &&& (key == ActivationFunctionKey::Softmax ==> is_nonempty_column(sum))
}

/// The activation of `sum`: the scalar function entry by entry (softmax over
/// the whole column), with a bias row of one put on top unless the layer is
/// the output layer.
pub fn forward<T: Scalar>(key: ActivationFunctionKey, sum: &Matrix<T>, is_output: bool) -> (r: Result<Matrix<T>, NetworkError>)
    requires
        sum.wf(),
        sum.rows < usize::MAX,
    ensures
        !forward_accepts(key, sum, is_output) ==> r == Err::<Matrix<T>, NetworkError>(mismatch(sum.rows, sum.cols, sum.rows, 1)),
        forward_accepts(key, sum, is_output) ==> {
            &&& r is Ok
            &&& r->Ok_0.wf()
            &&& r->Ok_0.cols == sum.cols
            &&& r->Ok_0.rows == if is_output { sum.rows as int } else { sum.rows + 1 }
            &&& is_activation_of(&r->Ok_0, key, sum, is_output)
        },
{
    let activated = match key {
        ActivationFunctionKey::Softmax => {
            if sum.cols != 1 || sum.rows == 0 {
                return Err(NetworkError::DimensionMismatch {
                    left_rows: sum.rows,
                    left_cols: sum.cols,
                    right_rows: sum.rows,
                    right_cols: 1,
                });
            }
            softmax_fn(sum)
        },
        _ => apply_scalar(key, sum),
    };
    if is_output {
        Ok(activated)
    } else {
        activated.unshift(T::one())
    }
}

/// The raw input of a network with a bias row of one put on top, as it
/// enters the first layer (the identity activation of a hidden layer).
/// `DimensionMismatch` unless `input` is a column vector.
pub fn augment_input<T: Scalar>(input: &Matrix<T>) -> (r: Result<Matrix<T>, NetworkError>)
    requires
        input.wf(),
        input.rows < usize::MAX,
    ensures
        input.cols != 1 ==> r == Err::<Matrix<T>, NetworkError>(mismatch(input.rows, input.cols, input.rows, 1)),
        input.cols == 1 ==> {
            &&& r is Ok
            &&& r->Ok_0.wf()
            &&& r->Ok_0.rows == input.rows + 1
            &&& r->Ok_0.cols == 1
            &&& r->Ok_0.at(0, 0) == T::spec_one()
            &&& forall|i: int| 0 <= i < input.rows ==> #[trigger] r->Ok_0.at(i + 1, 0) == input.at(i, 0)
        },
{
    input.unshift(T::one())
}

/// The derivative of the activation at every entry of `sum`.
/// `UnsupportedOperation` for softmax, whose gradient only exists jointly
/// with the cross-entropy loss (see `output`).
pub fn backward<T: Scalar>(key: ActivationFunctionKey, sum: &Matrix<T>) -> (r: Result<Matrix<T>, NetworkError>)
    requires
        sum.wf(),
    ensures
        key == ActivationFunctionKey::Softmax ==> r == Err::<Matrix<T>, NetworkError>(NetworkError::UnsupportedOperation),
        key != ActivationFunctionKey::Softmax ==> {
            &&& r is Ok
            &&& r->Ok_0.wf()
            &&& r->Ok_0.same_shape(sum)
            &&& forall|i: int, j: int| 0 <= i < sum.rows && 0 <= j < sum.cols
                ==> #[trigger] r->Ok_0.at(i, j) == scalar_backward(key, sum.at(i, j))
        },
{
    match key {
        ActivationFunctionKey::Sigmoid => Ok(sum.map(&|x: T, i: usize, j: usize| -> (v: T) ensures v == spec_sigmoid_derivative(x) { sigmoid_derivative(x) })),
        ActivationFunctionKey::TanH => Ok(sum.map(&|x: T, i: usize, j: usize| -> (v: T) ensures v == spec_tanh_derivative(x) { tanh_derivative(x) })),
        ActivationFunctionKey::ReLu => Ok(sum.map(&|x: T, i: usize, j: usize| -> (v: T) ensures v == spec_relu_derivative(x) { relu_derivative(x) })),
        ActivationFunctionKey::Softmax => Err(NetworkError::UnsupportedOperation),
    }
}

/// The output-layer delta taken directly from the activated output: for
/// softmax (paired with cross-entropy) `activated - expected`; for the
/// others the scalar function applied to `activated`.
pub fn output<T: Scalar>(key: ActivationFunctionKey, activated: &Matrix<T>, expected: &Matrix<T>) -> (r: Result<Matrix<T>, NetworkError>)
    requires
        activated.wf(),
        expected.wf(),
    ensures
        key == ActivationFunctionKey::Softmax && !activated.same_shape(expected)
            ==> r == Err::<Matrix<T>, NetworkError>(mismatch(activated.rows, activated.cols, expected.rows, expected.cols)),
        key != ActivationFunctionKey::Softmax || activated.same_shape(expected)
            ==> r is Ok && r->Ok_0.wf() && r->Ok_0.same_shape(activated),
        key == ActivationFunctionKey::Softmax && r is Ok ==> forall|i: int, j: int|
            0 <= i < activated.rows && 0 <= j < activated.cols
                ==> #[trigger] r->Ok_0.at(i, j) == activated.at(i, j).spec_minus(expected.at(i, j)),
        key != ActivationFunctionKey::Softmax ==> forall|i: int, j: int|
            0 <= i < activated.rows && 0 <= j < activated.cols
                ==> #[trigger] r->Ok_0.at(i, j) == scalar_forward(key, activated.at(i, j)),
{
    match key {
        ActivationFunctionKey::Softmax => activated.subtract(expected),
        _ => Ok(apply_scalar(key, activated)),
    }
}

} // verus!
