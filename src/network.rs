use vstd::prelude::*;
use crate::activation::{ActivationFunctionKey, augment_input};
use crate::failure::NetworkError;
use crate::layer::{ForwardPassResult, Layer, create_layer};
use crate::loss::ErrorFunctionKey;
use crate::matrix::Matrix;
use crate::scalar::Scalar;

verus! {

/// One training example: an input vector and the output expected for it.
#[derive(Debug)]
pub struct DataSetItem<T> {
    pub input: Vec<T>,
    pub output: Vec<T>,
}

/// An ordered sequence of layers sharing one loss function, and the batch
/// of examples gradients are currently computed over.
#[derive(Debug)]
pub struct Network<T> {
    pub error: ErrorFunctionKey,
    pub dataset: Vec<DataSetItem<T>>,
    pub layers: Vec<Layer<T>>,
}

/// Every layer's forward result for one example, and the example's input
/// with its bias row.
#[derive(Debug)]
pub struct ForwardResult<T> {
    pub results: Vec<ForwardPassResult<T>>,
    pub activated_input: Matrix<T>,
}

/// One gradient matrix per layer, shaped like its weights, and the mean loss
/// over the batch.
#[derive(Debug)]
pub struct GradientResult<T> {
    pub gradients: Vec<Matrix<T>>,
    pub loss: T,
}

/// A network with no layers and no data yet, scored with `error`.
pub fn create_network<T: Copy>(error: ErrorFunctionKey) -> (r: Network<T>)
    ensures
        r.error == error,
        r.dataset@.len() == 0,
        r.layers@.len() == 0,
        r.layers_wf(),
{
    Network { error, dataset: Vec::new(), layers: Vec::new() }
}

impl<T: Copy> Network<T> {
    /// The last layer.
    pub open spec fn last(&self) -> Layer<T> {
        self.layers@[self.layers@.len() - 1]
    }

    /// The layers are initialized and chained: each one's weights have a
    /// row per neuron, a column besides the bias, and one column more than
    /// the previous layer has neurons; only the last one is the output
    /// layer.
    pub open spec fn wf(&self) -> bool {
        &&& self.layers@.len() > 0
        &&& forall|l: int| 0 <= l < self.layers@.len() ==> (#[trigger] self.layers@[l]).wf()
        &&& forall|l: int| 0 <= l < self.layers@.len() ==>
                (#[trigger] self.layers@[l]).weights.rows == self.layers@[l].neuron_count
                    && self.layers@[l].weights.cols >= 2
        &&& forall|l: int| 0 < l < self.layers@.len() ==> #[trigger] self.chained_at(l)
        &&& forall|l: int| 0 <= l < self.layers@.len() ==>
                ((#[trigger] self.layers@[l]).is_output <==> l == self.layers@.len() - 1)
    }

    /// Layer `l` takes one input per neuron of layer `l - 1`, after the bias.
    pub open spec fn chained_at(&self, l: int) -> bool {
        self.layers@[l].weights.cols == self.layers@[l - 1].weights.rows + 1
    }

    /// Every layer is well formed (initialized or not).
    pub open spec fn layers_wf(&self) -> bool {
        forall|l: int| 0 <= l < self.layers@.len() ==> (#[trigger] self.layers@[l]).wf()
    }

    /// `weights` has one rectangular, non-empty matrix per layer, with a row
    /// per neuron and at least one column besides the bias, and on every
    /// later layer one column more than the layer before has neurons.
    pub open spec fn weights_fit(&self, weights: Seq<Vec<Vec<T>>>) -> bool {
        &&& weights.len() == self.layers@.len()
        &&& forall|l: int| 0 <= l < weights.len() ==> self.weights_fit_at(weights, l)
    }

    /// The part of `weights_fit` that concerns layer `l`.
    pub open spec fn weights_fit_at(&self, weights: Seq<Vec<Vec<T>>>, l: int) -> bool {
        let w = weights[l]@;
        &&& w.len() == self.layers@[l].neuron_count
        &&& w.len() > 0
        &&& forall|i: int| 0 <= i < w.len() ==> (#[trigger] w[i])@.len() == w[0]@.len()
        &&& w[0]@.len() >= 2
        &&& l > 0 ==> w[0]@.len() == self.layers@[l - 1].neuron_count + 1
    }

    /// `layer` is layer `l` given the weight rows `weights[l]`: its own
    /// neuron count, activation and loss, those weights, and the output flag
    /// on the last layer only.
    pub open spec fn initialized_as(&self, weights: Seq<Vec<Vec<T>>>, l: int, layer: Layer<T>) -> bool {
        let w = weights[l]@;
        &&& layer.wf()
        &&& layer.is_output == (l == self.layers@.len() - 1)
        &&& layer.neuron_count == self.layers@[l].neuron_count
        &&& layer.activation_key == self.layers@[l].activation_key
        &&& layer.error_key == self.layers@[l].error_key
        &&& layer.weights.rows == w.len()
        &&& layer.weights.rows == layer.neuron_count
        &&& w.len() > 0
        &&& layer.weights.cols == w[0]@.len()
        &&& forall|i: int, j: int| 0 <= i < layer.weights.rows && 0 <= j < layer.weights.cols
            ==> #[trigger] layer.weights.at(i, j) == w[i]@[j]
    }

    /// The number of inputs the first layer takes.
    pub open spec fn input_width(&self) -> int {
        self.layers@[0].weights.cols - 1
    }

    /// Whether an input of `input_len` entries and an expected output of
    /// `output_len` entries fit the network's shape.
    pub open spec fn fits(&self, input_len: int, output_len: int) -> bool {
        &&& input_len == self.input_width()
        &&& output_len == self.last().weights.rows
        &&& output_len > 0
        &&& forall|l: int| 0 <= l < self.layers@.len() && (#[trigger] self.layers@[l]).activation_key == ActivationFunctionKey::Softmax
                ==> self.layers@[l].weights.rows > 0
    }

    /// Whether deltas can be propagated: no hidden layer uses softmax, an
    /// output softmax is paired with cross-entropy, and log loss scores a
    /// single output.
    pub open spec fn trainable(&self) -> bool {
        &&& forall|l: int| 0 <= l < self.layers@.len() - 1
                ==> (#[trigger] self.layers@[l]).activation_key != ActivationFunctionKey::Softmax
        &&& self.last().activation_key == ActivationFunctionKey::Softmax
                ==> self.last().error_key == ErrorFunctionKey::CrossEntropy
        &&& self.last().activation_key != ActivationFunctionKey::Softmax && self.last().error_key == ErrorFunctionKey::LogLoss
                ==> self.last().weights.rows == 1
    }

    /// `f` has the shapes that layer `l` produces in a forward pass.
    pub open spec fn result_shaped(&self, l: int, f: ForwardPassResult<T>) -> bool {
        &&& f.wf()
        &&& f.sum.rows == self.layers@[l].weights.rows
        &&& f.sum.cols == 1
        &&& f.activated.cols == 1
        &&& f.activated.rows == if l == self.layers@.len() - 1 {
            self.layers@[l].weights.rows as int
        } else {
            self.layers@[l].weights.rows + 1
        }
    }

    /// `results` has the shapes a forward pass from `input` produces.
    pub open spec fn results_fit(&self, input: &Matrix<T>, results: Seq<ForwardPassResult<T>>) -> bool {
        &&& input.wf()
        &&& input.cols == 1
        &&& input.rows == self.layers@[0].weights.cols
        &&& results.len() == self.layers@.len()
        &&& forall|l: int| 0 <= l < results.len() ==> self.result_shaped(l, #[trigger] results[l])
    }

    /// The activation that feeds layer `l`: the input with its bias row for
    /// the first layer, else the previous layer's activation.
    pub open spec fn layer_input(input: Matrix<T>, results: Seq<ForwardPassResult<T>>, l: int) -> Matrix<T> {
        if l == 0 { input } else { results[l - 1].activated }
    }

    /// `total` holds one matrix per layer, shaped like its weights.
    pub open spec fn shaped_like_weights(&self, total: Seq<Matrix<T>>) -> bool {
        &&& total.len() == self.layers@.len()
        &&& forall|l: int| 0 <= l < total.len() ==> {
            &&& (#[trigger] total[l]).wf()
            &&& total[l].rows == self.layers@[l].weights.rows
            &&& total[l].cols == self.layers@[l].weights.cols
        }
    }

    /// Every example of the batch fits the network.
    pub open spec fn dataset_fits(&self) -> bool {
        forall|k: int| 0 <= k < self.dataset@.len()
            ==> self.fits((#[trigger] self.dataset@[k]).input@.len() as int, self.dataset@[k].output@.len() as int)
    }
}

impl<T: Scalar> Network<T> {
    /// Replaces the batch.
    pub fn set_data(&mut self, dataset: Vec<DataSetItem<T>>)
        ensures
            final(self).dataset == dataset,
            final(self).layers == old(self).layers,
            final(self).error == old(self).error,
    {
        self.dataset = dataset;
    }

    /// Appends a layer of `count` neurons with the given activation, scored
    /// with the network's loss.
    pub fn add(&mut self, activation: ActivationFunctionKey, count: u32)
        ensures
            final(self).layers@.len() == old(self).layers@.len() + 1,
            forall|l: int| 0 <= l < old(self).layers@.len() ==> #[trigger] final(self).layers@[l] == old(self).layers@[l],
            final(self).last().wf(),
            old(self).layers_wf() ==> final(self).layers_wf(),
            final(self).last().neuron_count == count,
            final(self).last().activation_key == activation,
            final(self).last().error_key == old(self).error,
            final(self).dataset == old(self).dataset,
            final(self).error == old(self).error,
    {
        let layer = create_layer(count, activation, self.error);
        self.layers.push(layer);
    }
}

impl<T: Scalar> Network<T> {
    /// `f` is the forward pass of `input`: the input with a bias entry of one
    /// on top, then each layer's forward result on the activation that feeds
    /// it.
    pub open spec fn threads(&self, input: &Matrix<T>, expected: &Matrix<T>, f: &ForwardResult<T>) -> bool {
        &&& f.activated_input.at(0, 0) == T::spec_one()
        &&& forall|i: int| 0 <= i < input.rows ==> #[trigger] f.activated_input.at(i + 1, 0) == input.at(i, 0)
        &&& f.results@.len() == self.layers@.len()
        &&& forall|l: int| 0 <= l < self.layers@.len() ==> (#[trigger] self.layers@[l]).is_forward_result(
            &f.results@[l], &Self::layer_input(f.activated_input, f.results@, l), expected)
    }

    /// Puts a bias row on `input` and threads it through the layers, each
    /// one's activation feeding the next. `DimensionMismatch` unless the
    /// input and expected output are column vectors that fit the network.
    #[verifier::rlimit(50)]
    pub fn forward_pass(&self, input: &Matrix<T>, expected: &Matrix<T>) -> (r: Result<ForwardResult<T>, NetworkError>)
        requires
            self.wf(),
            input.wf(),
            expected.wf(),
        ensures
            (input.cols == 1 && expected.cols == 1 && self.fits(input.rows as int, expected.rows as int)) <==> r is Ok,
            r is Ok ==> {
                &&& r->Ok_0.activated_input.rows == input.rows + 1
                &&& self.results_fit(&r->Ok_0.activated_input, r->Ok_0.results@)
                &&& self.threads(input, expected, &r->Ok_0)
            },
    {
        let first_cols = self.layers[0].weights.cols;
        if input.cols != 1 || input.rows != first_cols - 1 {
            return Err(NetworkError::DimensionMismatch {
                left_rows: first_cols - 1,
                left_cols: 1,
                right_rows: input.rows,
                right_cols: input.cols,
            });
        }
        let activated_input = augment_input(input)?;
        let count = self.layers.len();
        let mut results: Vec<ForwardPassResult<T>> = Vec::new();
        let mut l: usize = 0;
        while l < count
            invariant
                self.wf(),
                expected.wf(),
                count == self.layers@.len(),
                l <= count,
                activated_input.wf(),
                activated_input.cols == 1,
                activated_input.rows == self.layers@[0].weights.cols,
                results@.len() == l,
                forall|k: int| 0 <= k < l ==> self.result_shaped(k, #[trigger] results@[k]),
                forall|k: int| 0 <= k < l && (#[trigger] self.layers@[k]).activation_key == ActivationFunctionKey::Softmax
                    ==> self.layers@[k].weights.rows > 0,
                input.rows + 1 == activated_input.rows,
                activated_input.at(0, 0) == T::spec_one(),
                forall|i: int| 0 <= i < input.rows ==> #[trigger] activated_input.at(i + 1, 0) == input.at(i, 0),
                forall|k: int| 0 <= k < l ==> (#[trigger] self.layers@[k]).is_forward_result(
                    &results@[k], &Self::layer_input(activated_input, results@, k), expected),
                l == count ==> expected.cols == 1 && expected.rows == self.last().weights.rows && self.last().weights.rows > 0,
            decreases count - l,
        {
            let layer = &self.layers[l];
            proof {
                let fit = input.cols == 1 && expected.cols == 1 && self.fits(input.rows as int, expected.rows as int);
                if fit {
                    assert(self.layers@[l as int].activation_key == ActivationFunctionKey::Softmax
                        ==> self.layers@[l as int].weights.rows > 0);
                    if l > 0 {
                        assert(self.chained_at(l as int));
                        assert(self.result_shaped(l - 1, results@[l - 1]));
                    }
                    assert(self.layers@[l as int].is_output <==> l == count - 1);
                }
            }
            let result = if l == 0 {
                layer.forward_pass(&activated_input, expected)
            } else {
                layer.forward_pass(&results[l - 1].activated, expected)
            };
            let result = match result {
                Ok(f) => f,
                Err(e) => {
                    return Err(e);
                },
            };
            let ghost prev = results@;
            results.push(result);
            proof {
                assert forall|k: int| 0 <= k < l + 1 implies (#[trigger] self.layers@[k]).is_forward_result(
                    &results@[k], &Self::layer_input(activated_input, results@, k), expected) by {
                    assert(results@[k] == if k < l { prev[k] } else { result });
                    if k > 0 {
                        assert(results@[k - 1] == prev[k - 1]);
                    }
                }
            }
            l += 1;
        }
        Ok(ForwardResult { results, activated_input })
    }
}

impl<T: Copy> Network<T> {
    /// `s` read from its end.
    pub open spec fn reversed(s: Seq<Matrix<T>>) -> Seq<Matrix<T>> {
        Seq::new(s.len(), |l: int| s[s.len() - 1 - l])
    }

    /// `deltas[m]` is shaped like the weighted sums of layer
    /// `layers.len() - 1 - m`: the deltas come from the last layer back.
    pub open spec fn deltas_shaped(&self, deltas: Seq<Matrix<T>>) -> bool {
        forall|m: int| 0 <= m < deltas.len() ==> {
            let d = #[trigger] deltas[m];
            &&& d.wf()
            &&& d.cols == 1
            &&& d.rows == self.layers@[self.layers@.len() - 1 - m].weights.rows
        }
    }
}

impl<T: Scalar> Network<T> {
    /// `d[l]` is layer `l`'s delta: the output layer's from `expected`, and
    /// each hidden layer's from the delta of the layer after it.
    pub open spec fn are_deltas(&self, d: Seq<Matrix<T>>, expected: &Matrix<T>, results: Seq<ForwardPassResult<T>>) -> bool {
        &&& d.len() == self.layers@.len()
        &&& self.last().is_output_delta_of(&d[d.len() - 1], &results[d.len() - 1], expected)
        &&& forall|l: int| 0 <= l < d.len() - 1 ==> (#[trigger] self.layers@[l]).is_delta_of(
            &d[l], &results[l], &d[l + 1], &self.layers@[l + 1])
    }

    /// `after[l]` is `before[l]` plus the outer product of `d[l]` with the
    /// activation that fed layer `l`, each entry divided by the batch size.
    pub open spec fn accumulated(
        &self,
        before: Seq<Matrix<T>>,
        after: Seq<Matrix<T>>,
        d: Seq<Matrix<T>>,
        input: &Matrix<T>,
        results: Seq<ForwardPassResult<T>>,
    ) -> bool {
        forall|l: int, i: int, j: int| 0 <= l < after.len() && 0 <= i < after[l].rows && 0 <= j < after[l].cols
            ==> #[trigger] after[l].at(i, j) == before[l].at(i, j).spec_plus(
                d[l].at(i, 0).spec_times(Self::layer_input(*input, results, l).at(j, 0))
                    .spec_div(T::spec_from_count(self.dataset@.len() as usize)))
    }

    /// The deltas of all layers, from the last one back.
    #[verifier::rlimit(60)]
    fn deltas(&self, input: &Matrix<T>, expected: &Matrix<T>, results: &Vec<ForwardPassResult<T>>) -> (r: Result<Vec<Matrix<T>>, NetworkError>)
        requires
            self.wf(),
            self.results_fit(input, results@),
            expected.wf(),
            expected.cols == 1,
            expected.rows == self.last().weights.rows,
            expected.rows > 0,
        ensures
            self.trainable() <==> r is Ok,
            r is Ok ==> r->Ok_0@.len() == self.layers@.len() && self.deltas_shaped(r->Ok_0@),
            r is Ok ==> self.are_deltas(Self::reversed(r->Ok_0@), expected, results@),
    {
        let count = self.layers.len();
        proof {
            assert(self.result_shaped(count - 1, results@[count - 1]));
        }
        let delta_out = self.layers[count - 1].output_pass(&results[count - 1], expected)?;
        let mut deltas: Vec<Matrix<T>> = Vec::new();
        deltas.push(delta_out);
        let mut i: usize = count - 1;
        while i > 0
            invariant
                self.wf(),
                self.results_fit(input, results@),
                count == self.layers@.len(),
                i < count,
                deltas@.len() == count - i,
                self.deltas_shaped(deltas@),
                self.last().is_output_delta_of(&deltas@[0], &results@[count - 1], expected),
                forall|m: int| 0 < m < deltas@.len() ==> (#[trigger] self.layers@[count - 1 - m]).is_delta_of(
                    &deltas@[m], &results@[count - 1 - m], &deltas@[m - 1], &self.layers@[count - m]),
                forall|k: int| i <= k < count - 1 ==> (#[trigger] self.layers@[k]).activation_key != ActivationFunctionKey::Softmax,
                self.last().activation_key == ActivationFunctionKey::Softmax
                    ==> self.last().error_key == ErrorFunctionKey::CrossEntropy,
                self.last().activation_key != ActivationFunctionKey::Softmax && self.last().error_key == ErrorFunctionKey::LogLoss
                    ==> self.last().weights.rows == 1,
            decreases i,
        {
            i -= 1;
            proof {
                assert(self.result_shaped(i as int, results@[i as int]));
                assert(self.chained_at(i + 1));
                assert(deltas@[deltas@.len() - 1].rows == self.layers@[i + 1].weights.rows);
            }
            let delta = self.layers[i].backward_pass(&results[i], &deltas[deltas.len() - 1], &self.layers[i + 1]);
            let delta = match delta {
                Ok(d) => d,
                Err(e) => {
                    return Err(e);
                },
            };
            let ghost prev = deltas@;
            deltas.push(delta);
            proof {
                assert forall|m: int| 0 < m < deltas@.len() implies (#[trigger] self.layers@[count - 1 - m]).is_delta_of(
                    &deltas@[m], &results@[count - 1 - m], &deltas@[m - 1], &self.layers@[count - m]) by {
                    assert(deltas@[m - 1] == prev[m - 1]);
                    if m < prev.len() {
                        assert(deltas@[m] == prev[m]);
                    }
                }
            }
        }
        proof {
            let d = Self::reversed(deltas@);
            assert forall|l: int| 0 <= l < d.len() - 1 implies (#[trigger] self.layers@[l]).is_delta_of(
                &d[l], &results@[l], &d[l + 1], &self.layers@[l + 1]) by {
                let m = count - 1 - l;
                assert(self.layers@[count - 1 - m].is_delta_of(
                    &deltas@[m], &results@[count - 1 - m], &deltas@[m - 1], &self.layers@[count - m]));
            }
        }
        Ok(deltas)
    }

    /// Adds to `total[l]` the outer product of layer `l`'s delta with the
    /// activation that fed layer `l`, divided by the batch size.
    fn accumulate(&self, input: &Matrix<T>, results: &Vec<ForwardPassResult<T>>, deltas: &Vec<Matrix<T>>, total: &mut Vec<Matrix<T>>)
        requires
            self.wf(),
            self.results_fit(input, results@),
            deltas@.len() == self.layers@.len(),
            self.deltas_shaped(deltas@),
            self.shaped_like_weights(old(total)@),
        ensures
            self.shaped_like_weights(final(total)@),
            self.accumulated(old(total)@, final(total)@, Self::reversed(deltas@), input, results@),
    {
        let count = self.layers.len();
        let batch = T::from_count(self.dataset.len());
        let ghost d = Self::reversed(deltas@);
        let mut l: usize = 0;
        while l < count
            invariant
                self.wf(),
                self.results_fit(input, results@),
                count == self.layers@.len(),
                l <= count,
                deltas@.len() == count,
                self.deltas_shaped(deltas@),
                self.shaped_like_weights(total@),
                batch == T::spec_from_count(self.dataset@.len() as usize),
                d == Self::reversed(deltas@),
                forall|q: int| l <= q < count ==> #[trigger] total@[q] == old(total)@[q],
                forall|q: int, i: int, j: int| 0 <= q < l && 0 <= i < total@[q].rows && 0 <= j < total@[q].cols
                    ==> #[trigger] total@[q].at(i, j) == old(total)@[q].at(i, j).spec_plus(
                        d[q].at(i, 0).spec_times(Self::layer_input(*input, results@, q).at(j, 0))
                            .spec_div(T::spec_from_count(self.dataset@.len() as usize))),
            decreases count - l,
        {
            let delta = &deltas[count - 1 - l];
            assert(*delta == d[l as int]);
            let activations = if l == 0 {
                input
            } else {
                proof {
                    assert(self.result_shaped(l - 1, results@[l - 1]));
                    assert(self.chained_at(l as int));
                }
                &results[l - 1].activated
            };
            proof {
                assert(total@[l as int].wf());
                assert(delta.rows == total@[l as int].rows);
                assert(activations.rows == total@[l as int].cols);
            }
            let accumulate = |w: T, i: usize, j: usize| -> (v: T)
                requires
                    delta.wf(),
                    delta.cols == 1,
                    activations.wf(),
                    activations.cols == 1,
                    i < delta.rows,
                    j < activations.rows,
                ensures
                    v == w.spec_plus(delta.at(i as int, 0).spec_times(activations.at(j as int, 0)).spec_div(batch)),
            {
                w.plus(delta.items[i].times(activations.items[j]).divided_by(batch))
            };
            assert(*activations == Self::layer_input(*input, results@, l as int));
            let updated = total[l].map(&accumulate);
            let ghost prev = total@;
            total.set(l, updated);
            proof {
                assert forall|q: int, i: int, j: int| 0 <= q < l + 1 && 0 <= i < total@[q].rows && 0 <= j < total@[q].cols
                    implies #[trigger] total@[q].at(i, j) == old(total)@[q].at(i, j).spec_plus(
                        d[q].at(i, 0).spec_times(Self::layer_input(*input, results@, q).at(j, 0))
                            .spec_div(T::spec_from_count(self.dataset@.len() as usize))) by {
                    if q < l {
                        assert(total@[q] == prev[q]);
                    } else {
                        assert(prev[q] == old(total)@[q]);
                        assert(accumulate.ensures((prev[q].at(i, j), i as usize, j as usize), total@[q].at(i, j)));
                    }
                }
                assert forall|k: int| 0 <= k < total@.len() implies {
                    &&& (#[trigger] total@[k]).wf()
                    &&& total@[k].rows == self.layers@[k].weights.rows
                    &&& total@[k].cols == self.layers@[k].weights.cols
                } by {
                    if k != l {
                        assert(total@[k] == prev[k]);
                    }
                }
            }
            l += 1;
        }
    }

    /// Computes the output layer's delta, then each hidden layer's from the
    /// one after it, and adds to `total[l]` the outer product of layer `l`'s
    /// delta with the activation that fed layer `l` (the input with its bias
    /// row for the first layer), divided by the batch size. Fails, with
    /// `total` untouched, exactly when the network is not `trainable`.
    pub fn backward_pass(
        &self,
        input: &Matrix<T>,
        expected: &Matrix<T>,
        results: &Vec<ForwardPassResult<T>>,
        total: &mut Vec<Matrix<T>>,
    ) -> (r: Result<(), NetworkError>)
        requires
            self.wf(),
            self.results_fit(input, results@),
            expected.wf(),
            expected.cols == 1,
            expected.rows == self.last().weights.rows,
            expected.rows > 0,
            self.shaped_like_weights(old(total)@),
        ensures
            self.trainable() <==> r is Ok,
            self.shaped_like_weights(final(total)@),
            r is Err ==> final(total)@ == old(total)@,
            r is Ok ==> exists|d: Seq<Matrix<T>>| {
                &&& #[trigger] self.are_deltas(d, expected, results@)
                &&& self.accumulated(old(total)@, final(total)@, d, input, results@)
            },
    {
        let deltas = self.deltas(input, expected, results)?;
        self.accumulate(input, results, &deltas, total);
        assert(self.are_deltas(Self::reversed(deltas@), expected, results@));
        Ok(())
    }
}

impl<T: Scalar> Network<T> {
    /// A forward pass, then a backward pass that adds the example's gradient
    /// to `total`. Fails, with `total` untouched, exactly when the example
    /// does not fit or the network is not `trainable`.
    pub fn compute_result(&self, real_input: &Matrix<T>, expected: &Matrix<T>, total: &mut Vec<Matrix<T>>) -> (r: Result<ForwardResult<T>, NetworkError>)
        requires
            self.wf(),
            real_input.wf(),
            expected.wf(),
            self.shaped_like_weights(old(total)@),
        ensures
            ({
                &&& real_input.cols == 1
                &&& expected.cols == 1
                &&& self.fits(real_input.rows as int, expected.rows as int)
                &&& self.trainable()
            }) <==> r is Ok,
            r is Ok ==> self.results_fit(&r->Ok_0.activated_input, r->Ok_0.results@),
            r is Ok ==> self.threads(real_input, expected, &r->Ok_0),
            r is Ok ==> exists|d: Seq<Matrix<T>>| {
                &&& #[trigger] self.are_deltas(d, expected, r->Ok_0.results@)
                &&& self.accumulated(old(total)@, final(total)@, d, &r->Ok_0.activated_input, r->Ok_0.results@)
            },
            self.shaped_like_weights(final(total)@),
            r is Err ==> final(total)@ == old(total)@,
    {
        let data = self.forward_pass(real_input, expected)?;
        self.backward_pass(&data.activated_input, expected, &data.results, total)?;
        Ok(data)
    }

    /// One example's step of `compute_gradients`: `pass` is the forward pass
    /// of `item` (as the column vectors `input` and `expected`), the
    /// accumulators go from `before` to `after` by its backward pass, and
    /// the loss grows by the output layer's loss divided by the batch size.
    pub open spec fn gradient_step(
        &self,
        item: DataSetItem<T>,
        input: Matrix<T>,
        expected: Matrix<T>,
        pass: ForwardResult<T>,
        before: Seq<Matrix<T>>,
        after: Seq<Matrix<T>>,
        loss_before: T,
        loss_after: T,
    ) -> bool {
        &&& input.cols == 1
        &&& input.rows == item.input@.len()
        &&& input.column(0) == item.input@
        &&& expected.cols == 1
        &&& expected.rows == item.output@.len()
        &&& expected.column(0) == item.output@
        &&& self.threads(&input, &expected, &pass)
        &&& exists|d: Seq<Matrix<T>>| {
            &&& #[trigger] self.are_deltas(d, &expected, pass.results@)
            &&& self.accumulated(before, after, d, &pass.activated_input, pass.results@)
        }
        &&& loss_after == loss_before.spec_plus(
            pass.results@[pass.results@.len() - 1].error.spec_div(T::spec_from_count(self.dataset@.len() as usize)))
    }

    /// `steps`, `losses`, `passes`, `inputs` and `expecteds` trace
    /// `compute_gradients` over the batch: the accumulators start at zero
    /// (shaped like the weights) and the loss at zero, and each example takes one
    /// `gradient_step`.
    pub open spec fn gradient_trace(
        &self,
        steps: Seq<Seq<Matrix<T>>>,
        losses: Seq<T>,
        passes: Seq<ForwardResult<T>>,
        inputs: Seq<Matrix<T>>,
        expecteds: Seq<Matrix<T>>,
    ) -> bool {
        let n = self.dataset@.len();
        &&& steps.len() == n + 1
        &&& losses.len() == n + 1
        &&& passes.len() == n
        &&& inputs.len() == n
        &&& expecteds.len() == n
        &&& losses[0] == T::spec_zero()
        &&& steps[0].len() == self.layers@.len()
        &&& forall|l: int, i: int, j: int| 0 <= l < self.layers@.len() && 0 <= i < self.layers@[l].weights.rows
            && 0 <= j < self.layers@[l].weights.cols
            ==> #[trigger] steps[0][l].at(i, j) == T::spec_zero()
        &&& forall|k: int| 0 <= k < n ==> #[trigger] self.gradient_step(
            self.dataset@[k], inputs[k], expecteds[k], passes[k], steps[k], steps[k + 1], losses[k], losses[k + 1])
    }

    /// The gradients of every layer summed over the batch, each example's
    /// share divided by the batch size, and the batch-mean loss. Fails
    /// exactly when some example does not fit, or when the batch is not
    /// empty and the network is not `trainable`.
    pub fn compute_gradients(&self) -> (r: Result<GradientResult<T>, NetworkError>)
        requires
            self.wf(),
        ensures
            (self.dataset_fits() && (self.trainable() || self.dataset@.len() == 0)) <==> r is Ok,
            r is Ok ==> self.shaped_like_weights(r->Ok_0.gradients@),
            r is Ok ==> exists|steps: Seq<Seq<Matrix<T>>>, losses: Seq<T>, passes: Seq<ForwardResult<T>>,
                inputs: Seq<Matrix<T>>, expecteds: Seq<Matrix<T>>| {
                &&& #[trigger] self.gradient_trace(steps, losses, passes, inputs, expecteds)
                &&& steps[self.dataset@.len() as int] == r->Ok_0.gradients@
                &&& losses[self.dataset@.len() as int] == r->Ok_0.loss
            },
    {
        let count = self.layers.len();
        let mut total: Vec<Matrix<T>> = Vec::new();
        let mut l: usize = 0;
        while l < count
            invariant
                self.wf(),
                count == self.layers@.len(),
                l <= count,
                total@.len() == l,
                forall|k: int| 0 <= k < l ==> {
                    &&& (#[trigger] total@[k]).wf()
                    &&& total@[k].rows == self.layers@[k].weights.rows
                    &&& total@[k].cols == self.layers@[k].weights.cols
                },
                forall|k: int, i: int, j: int| 0 <= k < l && 0 <= i < self.layers@[k].weights.rows
                    && 0 <= j < self.layers@[k].weights.cols
                    ==> #[trigger] total@[k].at(i, j) == T::spec_zero(),
            decreases count - l,
        {
            let ghost prev = total@;
            let weights = &self.layers[l].weights;
            total.push(Matrix::filled(weights.rows, weights.cols, T::zero()));
            proof {
                assert forall|k: int, i: int, j: int| 0 <= k < l + 1 && 0 <= i < self.layers@[k].weights.rows
                    && 0 <= j < self.layers@[k].weights.cols
                    implies #[trigger] total@[k].at(i, j) == T::spec_zero() by {
                    if k < l {
                        assert(total@[k] == prev[k]);
                    }
                }
            }
            l += 1;
        }
        let size = self.dataset.len();
        let batch = T::from_count(size);
        let mut total_loss = T::zero();
        let ghost mut steps: Seq<Seq<Matrix<T>>> = seq![total@];
        let ghost mut losses: Seq<T> = seq![total_loss];
        let ghost mut passes: Seq<ForwardResult<T>> = Seq::empty();
        let ghost mut inputs: Seq<Matrix<T>> = Seq::empty();
        let ghost mut expecteds: Seq<Matrix<T>> = Seq::empty();
        let mut k: usize = 0;
        while k < size
            invariant
                self.wf(),
                size == self.dataset@.len(),
                k <= size,
                self.shaped_like_weights(total@),
                forall|q: int| 0 <= q < k ==>
                    self.fits((#[trigger] self.dataset@[q]).input@.len() as int, self.dataset@[q].output@.len() as int),
                k > 0 ==> self.trainable(),
                batch == T::spec_from_count(self.dataset@.len() as usize),
                steps.len() == k + 1,
                losses.len() == k + 1,
                passes.len() == k,
                inputs.len() == k,
                expecteds.len() == k,
                steps[k as int] == total@,
                losses[k as int] == total_loss,
                losses[0] == T::spec_zero(),
                steps[0].len() == self.layers@.len(),
                forall|l: int, i: int, j: int| 0 <= l < self.layers@.len() && 0 <= i < self.layers@[l].weights.rows
                    && 0 <= j < self.layers@[l].weights.cols
                    ==> #[trigger] steps[0][l].at(i, j) == T::spec_zero(),
                forall|q: int| 0 <= q < k ==> #[trigger] self.gradient_step(
                    self.dataset@[q], inputs[q], expecteds[q], passes[q], steps[q], steps[q + 1], losses[q], losses[q + 1]),
            decreases size - k,
        {
            let item = &self.dataset[k];
            let input = Matrix::from_column(&item.input);
            let output = Matrix::from_column(&item.output);
            let ghost before = total@;
            let data = match self.compute_result(&input, &output, &mut total) {
                Ok(d) => d,
                Err(e) => {
                    return Err(e);
                },
            };
            let last = data.results.len() - 1;
            let ghost loss_before = total_loss;
            total_loss = total_loss.plus(data.results[last].error.divided_by(batch));
            proof {
                assert(input.column(0) =~= item.input@);
                assert(output.column(0) =~= item.output@);
                assert(self.gradient_step(*item, input, output, data, before, total@, loss_before, total_loss));
                let old_steps = steps;
                let old_losses = losses;
                let old_passes = passes;
                let old_inputs = inputs;
                let old_expecteds = expecteds;
                steps = steps.push(total@);
                losses = losses.push(total_loss);
                passes = passes.push(data);
                inputs = inputs.push(input);
                expecteds = expecteds.push(output);
                assert forall|q: int| 0 <= q < k + 1 implies #[trigger] self.gradient_step(
                    self.dataset@[q], inputs[q], expecteds[q], passes[q], steps[q], steps[q + 1], losses[q], losses[q + 1]) by {
                    if q < k {
                        assert(inputs[q] == old_inputs[q] && expecteds[q] == old_expecteds[q] && passes[q] == old_passes[q]);
                        assert(steps[q] == old_steps[q] && steps[q + 1] == old_steps[q + 1]);
                        assert(losses[q] == old_losses[q] && losses[q + 1] == old_losses[q + 1]);
                    }
                }
            }
            k += 1;
        }
        assert(self.gradient_trace(steps, losses, passes, inputs, expecteds));
        Ok(GradientResult { gradients: total, loss: total_loss })
    }

    /// The forward pass of one example. Fails exactly when it does not fit.
    pub fn predict(&self, item: &DataSetItem<T>) -> (r: Result<ForwardResult<T>, NetworkError>)
        requires
            self.wf(),
        ensures
            self.fits(item.input@.len() as int, item.output@.len() as int) <==> r is Ok,
            r is Ok ==> self.results_fit(&r->Ok_0.activated_input, r->Ok_0.results@),
            r is Ok ==> exists|input: Matrix<T>, expected: Matrix<T>| {
                &&& #[trigger] self.threads(&input, &expected, &r->Ok_0)
                &&& input.rows == item.input@.len() && input.cols == 1 && input.column(0) == item.input@
                &&& expected.rows == item.output@.len() && expected.cols == 1 && expected.column(0) == item.output@
            },
    {
        let input = Matrix::from_column(&item.input);
        let output = Matrix::from_column(&item.output);
        let r = self.forward_pass(&input, &output);
        assert(input.column(0) =~= item.input@);
        assert(output.column(0) =~= item.output@);
        r
    }
}

impl<T: Scalar> Network<T> {
    /// Layer `l` of this network, initialized with the weight rows `weights[l]`.
    fn initialized_layer(&self, weights: &Vec<Vec<Vec<T>>>, l: usize) -> (r: Result<Layer<T>, NetworkError>)
        requires
            self.layers_wf(),
            weights@.len() == self.layers@.len(),
            l < self.layers@.len(),
        ensures
            self.weights_fit_at(weights@, l as int) <==> r is Ok,
            r is Ok ==> self.initialized_as(weights@, l as int, r->Ok_0),
    {
        let count = self.layers.len();
        let old_layer = &self.layers[l];
        let rows = &weights[l];
        if rows.len() == 0 || rows.len() != old_layer.neuron_count as usize {
            return Err(NetworkError::DimensionMismatch {
                left_rows: old_layer.neuron_count as usize,
                left_cols: 1,
                right_rows: rows.len(),
                right_cols: 1,
            });
        }
        let w = Matrix::from_rows(rows)?;
        let wanted_ok = w.cols >= 2 && (l == 0 || w.cols - 1 == self.layers[l - 1].neuron_count as usize);
        if !wanted_ok {
            return Err(NetworkError::DimensionMismatch {
                left_rows: w.rows,
                left_cols: w.cols,
                right_rows: w.rows,
                right_cols: 0,
            });
        }
        let mut layer = create_layer(old_layer.neuron_count, old_layer.activation_key, old_layer.error_key);
        layer.initialize(w, l == count - 1)?;
        Ok(layer)
    }

    /// Every layer initialized with its weights (see `initialize`).
    fn initialized_layers(&self, weights: &Vec<Vec<Vec<T>>>) -> (r: Result<Vec<Layer<T>>, NetworkError>)
        requires
            self.layers_wf(),
        ensures
            self.weights_fit(weights@) <==> r is Ok,
            r is Ok ==> {
                &&& r->Ok_0@.len() == self.layers@.len()
                &&& forall|l: int| 0 <= l < self.layers@.len() ==> self.initialized_as(weights@, l, #[trigger] r->Ok_0@[l])
            },
    {
        let count = self.layers.len();
        if weights.len() != count {
            return Err(NetworkError::DimensionMismatch { left_rows: count, left_cols: 1, right_rows: weights.len(), right_cols: 1 });
        }
        let mut layers: Vec<Layer<T>> = Vec::new();
        let mut l: usize = 0;
        while l < count
            invariant
                self.layers_wf(),
                count == self.layers@.len(),
                weights@.len() == count,
                l <= count,
                layers@.len() == l,
                forall|k: int| 0 <= k < l ==> self.weights_fit_at(weights@, k),
                forall|k: int| 0 <= k < l ==> self.initialized_as(weights@, k, #[trigger] layers@[k]),
            decreases count - l,
        {
            let layer = match self.initialized_layer(weights, l) {
                Ok(layer) => layer,
                Err(e) => {
                    return Err(e);
                },
            };
            layers.push(layer);
            l += 1;
        }
        Ok(layers)
    }

    /// Binds the first batch and gives every layer its weights, marking the
    /// last one as the output layer. `MissingLayers` when no layer was
    /// added; `DimensionMismatch` unless `weights` fits the layers (see
    /// `weights_fit`). On failure the layers are left as they were.
    pub fn initialize(&mut self, dataset: Vec<DataSetItem<T>>, weights: Vec<Vec<Vec<T>>>) -> (r: Result<(), NetworkError>)
        requires
            old(self).layers_wf(),
        ensures
            final(self).dataset == dataset,
            final(self).error == old(self).error,
            old(self).layers@.len() == 0 ==> r == Err::<(), NetworkError>(NetworkError::MissingLayers),
            old(self).layers@.len() > 0 ==> (old(self).weights_fit(weights@) <==> r is Ok),
            r is Err ==> final(self).layers == old(self).layers,
            r is Ok ==> {
                &&& final(self).wf()
                &&& final(self).layers@.len() == old(self).layers@.len()
                &&& forall|l: int| 0 <= l < old(self).layers@.len()
                    ==> old(self).initialized_as(weights@, l, #[trigger] final(self).layers@[l])
            },
    {
        if self.layers.len() == 0 {
            self.dataset = dataset;
            return Err(NetworkError::MissingLayers);
        }
        let built = self.initialized_layers(&weights);
        let ghost before = *self;
        self.dataset = dataset;
        let layers = match built {
            Ok(layers) => layers,
            Err(e) => {
                return Err(e);
            },
        };
        self.layers = layers;
        proof {
            let n = self.layers@.len();
            assert forall|k: int| 0 < k < n implies #[trigger] self.chained_at(k) by {
                assert(before.initialized_as(weights@, k, self.layers@[k]));
                assert(before.initialized_as(weights@, k - 1, self.layers@[k - 1]));
                assert(before.weights_fit_at(weights@, k));
            }
            assert forall|k: int| 0 <= k < n implies {
                &&& (#[trigger] self.layers@[k]).wf()
                &&& self.layers@[k].weights.rows == self.layers@[k].neuron_count
                &&& self.layers@[k].weights.cols >= 2
                &&& (self.layers@[k].is_output <==> k == n - 1)
            } by {
                assert(before.initialized_as(weights@, k, self.layers@[k]));
                assert(before.weights_fit_at(weights@, k));
            }
        }
        Ok(())
    }

    /// The shape of each layer's weight matrix for inputs of `input_width`
    /// entries: a row per neuron, and a column per neuron of the layer
    /// before (per input for the first layer) after the bias column.
    pub fn weight_shapes(&self, input_width: usize) -> (r: Vec<(usize, usize)>)
        requires
            input_width < usize::MAX,
            forall|l: int| 0 <= l < self.layers@.len() ==> (#[trigger] self.layers@[l]).neuron_count < usize::MAX,
        ensures
            r@.len() == self.layers@.len(),
            forall|l: int| 0 <= l < r@.len() ==> (#[trigger] r@[l]).0 == self.layers@[l].neuron_count,
            r@.len() > 0 ==> r@[0].1 == input_width + 1,
            forall|l: int| 0 < l < r@.len() ==> (#[trigger] r@[l]).1 == self.layers@[l - 1].neuron_count + 1,
    {
        let mut shapes: Vec<(usize, usize)> = Vec::new();
        let mut current = input_width;
        let mut l: usize = 0;
        while l < self.layers.len()
            invariant
                input_width < usize::MAX,
                forall|l: int| 0 <= l < self.layers@.len() ==> (#[trigger] self.layers@[l]).neuron_count < usize::MAX,
                l <= self.layers@.len(),
                shapes@.len() == l,
                current < usize::MAX,
                l == 0 ==> current == input_width,
                l > 0 ==> current == self.layers@[l - 1].neuron_count,
                forall|k: int| 0 <= k < l ==> (#[trigger] shapes@[k]).0 == self.layers@[k].neuron_count,
                l > 0 ==> shapes@[0].1 == input_width + 1,
                forall|k: int| 0 < k < l ==> (#[trigger] shapes@[k]).1 == self.layers@[k - 1].neuron_count + 1,
            decreases self.layers@.len() - l,
        {
            let rows = self.layers[l].neuron_count as usize;
            shapes.push((rows, current + 1));
            current = rows;
            l += 1;
        }
        shapes
    }
}

impl<T: Scalar> Network<T> {
    /// Gives layer `l` new weights of the shape it has, through
    /// `Layer::set_weights`, which refreshes the layer's cache.
    pub fn update_weights(&mut self, l: usize, weights: Matrix<T>) -> (r: Result<(), NetworkError>)
        requires
            old(self).wf(),
            l < old(self).layers@.len(),
            weights.wf(),
        ensures
            weights.same_shape(&old(self).layers@[l as int].weights) <==> r is Ok,
            final(self).wf(),
            final(self).layers@.len() == old(self).layers@.len(),
            final(self).dataset == old(self).dataset,
            final(self).error == old(self).error,
            r is Err ==> final(self).layers@ == old(self).layers@,
            r is Ok ==> final(self).layers@[l as int].weights == weights,
            forall|k: int| 0 <= k < old(self).layers@.len() ==> {
                let a = #[trigger] final(self).layers@[k];
                let b = old(self).layers@[k];
                &&& a.neuron_count == b.neuron_count
                &&& a.activation_key == b.activation_key
                &&& a.error_key == b.error_key
                &&& a.is_output == b.is_output
                &&& a.weights.rows == b.weights.rows
                &&& a.weights.cols == b.weights.cols
                &&& k != l ==> a == b
            },
    {
        if weights.rows != self.layers[l].weights.rows || weights.cols != self.layers[l].weights.cols {
            return Err(NetworkError::DimensionMismatch {
                left_rows: self.layers[l].weights.rows,
                left_cols: self.layers[l].weights.cols,
                right_rows: weights.rows,
                right_cols: weights.cols,
            });
        }
        let ghost before = *self;
        let result = self.layers[l].set_weights(weights);
        proof {
            assert forall|k: int| 0 < k < self.layers@.len() implies #[trigger] self.chained_at(k) by {
                assert(before.chained_at(k));
            }
            assert forall|k: int| 0 <= k < self.layers@.len() implies {
                &&& (#[trigger] self.layers@[k]).wf()
                &&& self.layers@[k].weights.rows == self.layers@[k].neuron_count
                &&& self.layers@[k].weights.cols >= 2
                &&& (self.layers@[k].is_output <==> k == self.layers@.len() - 1)
            } by {
                assert(before.layers@[k].wf());
            }
        }
        result
    }
}

} // verus!
