use vstd::prelude::*;
use crate::activation::{ActivationFunctionKey, forward, backward, output, is_activation_of, scalar_backward};
use crate::failure::{NetworkError, mismatch};
use crate::loss::{ErrorFunctionKey, loss, grad, comparable, spec_loss, grad_entry};
use crate::matrix::{Matrix, kept_column, dot};
use crate::scalar::Scalar;

verus! {

/// What one layer computed for one input: the weighted sums, their
/// activation, and the loss (minus one on a hidden layer, which has none).
#[derive(Debug)]
pub struct ForwardPassResult<T> {
    pub sum: Matrix<T>,
    pub activated: Matrix<T>,
    pub error: T,
}

/// One fully connected layer. `weights` has a row per neuron and a column
/// per input of the previous layer, after a first column for the bias;
/// `weights_transpose` caches the transpose of `weights` without that bias
/// column, which carries deltas back to the previous layer.
#[derive(Debug)]
pub struct Layer<T> {
    pub is_output: bool,
    pub neuron_count: u32,
    pub weights: Matrix<T>,
    pub weights_transpose: Matrix<T>,
    pub activation_key: ActivationFunctionKey,
    pub error_key: ErrorFunctionKey,
}

/// `o` is `w` without its column `col`.
pub open spec fn is_omit_of<T: Copy>(o: &Matrix<T>, w: &Matrix<T>, col: int) -> bool {
    &&& o.rows == w.rows
    &&& o.cols + 1 == w.cols
    &&& forall|i: int, j: int|
        0 <= i < o.rows && 0 <= j < o.cols ==> #[trigger] o.at(i, j) == w.at(i, kept_column(j, col))
}

impl<T: Copy> ForwardPassResult<T> {
    /// Both matrices are well formed.
    pub open spec fn wf(&self) -> bool {
        self.sum.wf() && self.activated.wf()
    }
}

impl<T: Copy> Layer<T> {
    /// Every entry of the cache is the weight across the diagonal, one
    /// column to the right (past the bias column).
    #[verifier::opaque]
    pub open spec fn cache_entries_match(&self) -> bool {
        forall|i: int, j: int|
            0 <= i < self.weights_transpose.rows && 0 <= j < self.weights_transpose.cols
                ==> #[trigger] self.weights_transpose.at(i, j) == self.weights.at(j, i + 1)
    }

    /// The cache is the transpose of the weights without the bias column.
    pub open spec fn cache_consistent(&self) -> bool {
        &&& self.weights_transpose.rows + 1 == self.weights.cols
        &&& self.weights_transpose.cols == self.weights.rows
        &&& self.cache_entries_match()
    }

    pub open spec fn wf(&self) -> bool {
        &&& self.weights.wf()
        &&& self.weights_transpose.wf()
        &&& self.weights.rows < usize::MAX
        &&& self.cache_consistent()
    }

    /// Whether `forward_pass` succeeds on `input` and `expected`: the input
    /// is a column vector with one entry per weight column, softmax has at
    /// least one neuron, and the output layer's expected vector matches its
    /// activation.
    pub open spec fn accepts(&self, input: &Matrix<T>, expected: &Matrix<T>) -> bool {
        &&& input.rows == self.weights.cols
        &&& input.cols == 1
        &&& (self.activation_key == ActivationFunctionKey::Softmax ==> self.weights.rows > 0)
        &&& (self.is_output ==> expected.cols == 1 && expected.rows == self.weights.rows && self.weights.rows > 0)
    }

    /// Whether `output_pass` succeeds on `result` and `expected`, for an
    /// activation other than softmax: the loss gradient and the activation
    /// derivative have the shape of the weighted sums.
    pub open spec fn output_accepts(&self, result: &ForwardPassResult<T>, expected: &Matrix<T>) -> bool {
        &&& comparable(&result.activated, expected)
        &&& result.sum.cols == 1
        &&& result.sum.rows == if self.error_key == ErrorFunctionKey::LogLoss { 1 } else { result.activated.rows as int }
    }
}

impl<T: Scalar> Layer<T> {
    /// `f` is what `forward_pass` computes from `input` and `expected`:
    /// `sum = weights · input`, its activation, and the loss on the output
    /// layer or minus one on a hidden layer.
    pub open spec fn is_forward_result(&self, f: &ForwardPassResult<T>, input: &Matrix<T>, expected: &Matrix<T>) -> bool {
        &&& f.sum.is_product_of(&self.weights, input)
        &&& is_activation_of(&f.activated, self.activation_key, &f.sum, self.is_output)
        &&& self.is_output ==> f.error == spec_loss(self.error_key, f.activated.column(0), expected.column(0))
        &&& !self.is_output ==> f.error == T::spec_one().spec_neg()
    }

    /// `d` is this layer's delta: the next layer's delta carried back through
    /// its cached transpose, times this layer's activation derivative.
    pub open spec fn is_delta_of(&self, d: &Matrix<T>, result: &ForwardPassResult<T>, delta_next: &Matrix<T>, layer_next: &Layer<T>) -> bool {
        &&& d.same_shape(&result.sum)
        &&& forall|i: int, j: int| 0 <= i < d.rows && 0 <= j < d.cols ==> #[trigger] d.at(i, j)
            == dot(layer_next.weights_transpose.row(i), delta_next.column(j), layer_next.weights_transpose.cols as nat)
                .spec_times(scalar_backward(self.activation_key, result.sum.at(i, j)))
    }

    /// `d` is this output layer's delta: `activated - expected` for softmax,
    /// else the loss gradient times the activation derivative.
    pub open spec fn is_output_delta_of(&self, d: &Matrix<T>, result: &ForwardPassResult<T>, expected: &Matrix<T>) -> bool {
        if self.activation_key == ActivationFunctionKey::Softmax {
            &&& d.same_shape(&result.activated)
            &&& forall|i: int, j: int| 0 <= i < d.rows && 0 <= j < d.cols
                ==> #[trigger] d.at(i, j) == result.activated.at(i, j).spec_minus(expected.at(i, j))
        } else {
            &&& d.same_shape(&result.sum)
            &&& forall|i: int, j: int| 0 <= i < d.rows && 0 <= j < d.cols ==> #[trigger] d.at(i, j)
                == grad_entry(self.error_key, result.activated.column(0), expected.column(0), i)
                    .spec_times(scalar_backward(self.activation_key, result.sum.at(i, j)))
        }
    }
}

/// A layer of `count` neurons, not yet given its weights: a one-by-one zero
/// weight matrix with an empty cache.
pub fn create_layer<T: Scalar>(count: u32, activation: ActivationFunctionKey, error: ErrorFunctionKey) -> (r: Layer<T>)
    ensures
        r.wf(),
        !r.is_output,
        r.weights.rows == 1,
        r.weights.cols == 1,
        r.weights.at(0, 0) == T::spec_zero(),
        r.weights_transpose.rows == 0,
        r.weights_transpose.cols == 1,
        r.neuron_count == count,
        r.activation_key == activation,
        r.error_key == error,
{
    let zero = T::zero();
    proof {
        reveal(Layer::cache_entries_match);
    }
    Layer {
        is_output: false,
        neuron_count: count,
        weights: Matrix::filled(1, 1, zero),
        weights_transpose: Matrix::filled(0, 1, zero),
        activation_key: activation,
        error_key: error,
    }
}

impl<T: Scalar> Layer<T> {
    /// Replaces the weights and recomputes the cache from them, as
    /// `weights.omit(0).transpose()`. `DimensionMismatch` when the weights
    /// have no column besides the bias; the layer is then left as it was.
    pub fn set_weights(&mut self, weights: Matrix<T>) -> (r: Result<(), NetworkError>)
        requires
            old(self).wf(),
            weights.wf(),
        ensures
            weights.cols < 2 ==> r == Err::<(), NetworkError>(mismatch(weights.rows, weights.cols, weights.rows, 2))
                && *final(self) == *old(self),
            weights.cols >= 2 ==> {
                &&& r is Ok
                &&& final(self).wf()
                &&& final(self).weights == weights
                &&& final(self).is_output == old(self).is_output
                &&& final(self).neuron_count == old(self).neuron_count
                &&& final(self).activation_key == old(self).activation_key
                &&& final(self).error_key == old(self).error_key
            },
    {
        let total = weights.items.len();
        let stripped = weights.omit(0)?;
        let cache = stripped.transpose();
        proof {
            assert(weights.rows < usize::MAX) by (nonlinear_arith)
                requires
                    weights.cols >= 2,
                    total == weights.rows * weights.cols,
                    total <= usize::MAX;
        }
        self.weights = weights;
        self.weights_transpose = cache;
        proof {
            reveal(Layer::cache_entries_match);
        }
        Ok(())
    }

    /// Sets the weights (see `set_weights`) and whether this is the output
    /// layer.
    pub fn initialize(&mut self, weights: Matrix<T>, is_output: bool) -> (r: Result<(), NetworkError>)
        requires
            old(self).wf(),
            weights.wf(),
        ensures
            weights.cols < 2 ==> r is Err && *final(self) == *old(self),
            weights.cols >= 2 ==> {
                &&& r is Ok
                &&& final(self).wf()
                &&& final(self).weights == weights
                &&& final(self).is_output == is_output
                &&& final(self).neuron_count == old(self).neuron_count
                &&& final(self).activation_key == old(self).activation_key
                &&& final(self).error_key == old(self).error_key
            },
    {
        self.set_weights(weights)?;
        self.is_output = is_output;
        proof {
            reveal(Layer::cache_entries_match);
        }
        Ok(())
    }

    /// `sum = weights · input`, its activation (with a bias row unless this
    /// is the output layer), and on the output layer the loss against
    /// `expected`.
    pub fn forward_pass(&self, input: &Matrix<T>, expected: &Matrix<T>) -> (r: Result<ForwardPassResult<T>, NetworkError>)
        requires
            self.wf(),
            input.wf(),
            expected.wf(),
        ensures
            self.accepts(input, expected) <==> r is Ok,
            r is Ok ==> {
                let f = r->Ok_0;
                &&& f.wf()
                &&& f.sum.rows == self.weights.rows
                &&& f.sum.cols == 1
                &&& f.activated.cols == 1
                &&& f.activated.rows == if self.is_output { self.weights.rows as int } else { self.weights.rows + 1 }
                &&& self.is_forward_result(&f, input, expected)
            },
    {
        let sum = self.weights.multiply(input)?;
        let activated = forward(self.activation_key, &sum, self.is_output)?;
        let error = if self.is_output {
            loss(self.error_key, &activated, expected)?
        } else {
            T::one().negated()
        };
        Ok(ForwardPassResult { sum, activated, error })
    }

    /// This layer's delta: the next layer's delta carried back through its
    /// weights without the bias column, times this layer's activation
    /// derivative entry by entry.
    pub fn backward_pass(&self, result: &ForwardPassResult<T>, delta_next: &Matrix<T>, layer_next: &Layer<T>) -> (r: Result<Matrix<T>, NetworkError>)
        requires
            self.wf(),
            result.wf(),
            delta_next.wf(),
            layer_next.wf(),
        ensures
            ({
                &&& self.activation_key != ActivationFunctionKey::Softmax
                &&& layer_next.weights.rows == delta_next.rows
                &&& layer_next.weights.cols == result.sum.rows + 1
                &&& delta_next.cols == result.sum.cols
            }) <==> r is Ok,
            ({
                &&& self.activation_key == ActivationFunctionKey::Softmax
                &&& layer_next.weights.rows == delta_next.rows
                &&& layer_next.weights.cols == result.sum.rows + 1
            }) ==> r == Err::<Matrix<T>, NetworkError>(NetworkError::UnsupportedOperation),
            r is Ok ==> r->Ok_0.wf() && self.is_delta_of(&r->Ok_0, result, delta_next, layer_next),
    {
        let carried = layer_next.weights_transpose.multiply(delta_next)?;
        let derivative = backward(self.activation_key, &result.sum)?;
        carried.hadamard(&derivative)
    }

    /// The output layer's delta. Softmax with cross-entropy gives
    /// `activated - expected`; softmax with another loss is an
    /// `InvalidCombination`; any other activation gives the loss gradient
    /// times the activation derivative entry by entry.
    pub fn output_pass(&self, result: &ForwardPassResult<T>, expected: &Matrix<T>) -> (r: Result<Matrix<T>, NetworkError>)
        requires
            self.wf(),
            result.wf(),
            expected.wf(),
        ensures
            self.activation_key == ActivationFunctionKey::Softmax && self.error_key != ErrorFunctionKey::CrossEntropy
                ==> r == Err::<Matrix<T>, NetworkError>(NetworkError::InvalidCombination),
            self.activation_key == ActivationFunctionKey::Softmax && self.error_key == ErrorFunctionKey::CrossEntropy ==> {
                &&& result.activated.same_shape(expected) <==> r is Ok
                &&& r is Ok ==> r->Ok_0.wf() && self.is_output_delta_of(&r->Ok_0, result, expected)
            },
            self.activation_key != ActivationFunctionKey::Softmax ==> {
                &&& self.output_accepts(result, expected) <==> r is Ok
                &&& r is Ok ==> r->Ok_0.wf() && self.is_output_delta_of(&r->Ok_0, result, expected)
            },
    {
        if self.activation_key == ActivationFunctionKey::Softmax {
            if self.error_key == ErrorFunctionKey::CrossEntropy {
                return output(self.activation_key, &result.activated, expected);
            } else {
                return Err(NetworkError::InvalidCombination);
            }
        }
        let error = grad(self.error_key, &result.activated, expected)?;
        let derivative = backward(self.activation_key, &result.sum)?;
        error.hadamard(&derivative)
    }
}

/// Whatever `set_weights` was last given, the cache equals the weights with
/// column zero omitted, then transposed, entry for entry.
pub proof fn lemma_cache_is_stripped_transpose<T: Copy>(layer: Layer<T>, stripped: Matrix<T>, transposed: Matrix<T>)
    requires
        layer.wf(),
        is_omit_of(&stripped, &layer.weights, 0),
        transposed.is_transpose_of(&stripped),
    ensures
        layer.weights_transpose.same_entries(&transposed),
{
    reveal(Layer::cache_entries_match);
}

} // verus!
