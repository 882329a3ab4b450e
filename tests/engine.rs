use neural_net::activation::{backward, forward, sigmoid_fn, softmax_fn, ActivationFunctionKey};
use neural_net::failure::NetworkError;
use neural_net::layer::{create_layer, ForwardPassResult};
use neural_net::loss::{grad, loss, ErrorFunctionKey};
use neural_net::matrix::{calc_index, Matrix};
use neural_net::network::{create_network, DataSetItem, Network};
use neural_net::optimizer::{get_learning_rate, sgd_optimizer, LearningRateSchedule, Optimizer};
use neural_net::scalar::Scalar;
use neural_net::utils::{generate_batch, sample_indices};

#[derive(Clone, Copy, Debug, PartialEq)]
struct F(f64);

impl Scalar for F {
    fn spec_zero() -> F {
        F::zero()
    }
    fn spec_one() -> F {
        F::one()
    }
    fn spec_plus(self, o: F) -> F {
        self.plus(o)
    }
    fn spec_minus(self, o: F) -> F {
        self.minus(o)
    }
    fn spec_times(self, o: F) -> F {
        self.times(o)
    }
    fn spec_div(self, o: F) -> F {
        self.divided_by(o)
    }
    fn spec_neg(self) -> F {
        self.negated()
    }
    fn spec_exp(self) -> F {
        self.exp()
    }
    fn spec_ln(self) -> F {
        self.ln()
    }
    fn spec_exceeds(self, o: F) -> bool {
        self.exceeds(o)
    }
    fn spec_from_count(n: usize) -> F {
        F::from_count(n)
    }
    fn zero() -> F {
        F(0.0)
    }
    fn one() -> F {
        F(1.0)
    }
    fn plus(self, o: F) -> F {
        F(self.0 + o.0)
    }
    fn minus(self, o: F) -> F {
        F(self.0 - o.0)
    }
    fn times(self, o: F) -> F {
        F(self.0 * o.0)
    }
    fn divided_by(self, o: F) -> F {
        F(self.0 / o.0)
    }
    fn negated(self) -> F {
        F(-self.0)
    }
    fn exp(self) -> F {
        F(self.0.exp())
    }
    fn ln(self) -> F {
        F(self.0.ln())
    }
    fn exceeds(self, o: F) -> bool {
        self.0 > o.0
    }
    fn from_count(n: usize) -> F {
        F(n as f64)
    }
}

struct Halving;

impl LearningRateSchedule<F> for Halving {
    fn spec_rate(&self, iteration: u64) -> F {
        self.rate(iteration)
    }
    fn rate(&self, iteration: u64) -> F {
        F(1.0 / (iteration as f64 + 2.0))
    }
}

fn m(rows: Vec<Vec<f64>>) -> Matrix<F> {
    let rows: Vec<Vec<F>> = rows.into_iter().map(|r| r.into_iter().map(F).collect()).collect();
    Matrix::from_rows(&rows).unwrap()
}

fn col(values: Vec<f64>) -> Matrix<F> {
    let values: Vec<F> = values.into_iter().map(F).collect();
    Matrix::from_column(&values)
}

fn values(x: &Matrix<F>) -> Vec<f64> {
    x.items.iter().map(|v| v.0).collect()
}

fn item(input: Vec<f64>, output: Vec<f64>) -> DataSetItem<F> {
    DataSetItem { input: input.into_iter().map(F).collect(), output: output.into_iter().map(F).collect() }
}

#[test]
fn index_is_row_major() {
    assert_eq!(calc_index(0, 0, 3), 0);
    assert_eq!(calc_index(1, 2, 3), 5);
    assert_eq!(calc_index(2, 1, 4), 9);
}

#[test]
fn get_and_set_check_bounds() {
    let mut a = m(vec![vec![1.0, 2.0], vec![3.0, 4.0]]);
    assert_eq!(a.get(1, 0), Ok(F(3.0)));
    assert_eq!(a.get(2, 0), Err(NetworkError::IndexOutOfRange));
    assert_eq!(a.get(0, 2), Err(NetworkError::IndexOutOfRange));
    assert_eq!(a.set(0, 1, F(9.0)), Ok(()));
    assert_eq!(values(&a), vec![1.0, 9.0, 3.0, 4.0]);
    assert_eq!(a.set(5, 5, F(1.0)), Err(NetworkError::IndexOutOfRange));
    assert_eq!(values(&a), vec![1.0, 9.0, 3.0, 4.0]);
}

#[test]
fn multiply_shapes_and_values() {
    let a = m(vec![vec![1.0, 2.0, 3.0], vec![4.0, 5.0, 6.0]]);
    let b = m(vec![vec![7.0, 8.0], vec![9.0, 10.0], vec![11.0, 12.0]]);
    let c = a.multiply(&b).unwrap();
    assert_eq!((c.rows, c.cols), (2, 2));
    assert_eq!(values(&c), vec![58.0, 64.0, 139.0, 154.0]);
    let d = b.multiply(&a).unwrap();
    assert_eq!((d.rows, d.cols), (3, 3));
}

#[test]
fn multiply_reports_mismatch() {
    let a = m(vec![vec![1.0, 2.0]]);
    let b = m(vec![vec![1.0, 2.0]]);
    assert_eq!(
        a.multiply(&b).unwrap_err(),
        NetworkError::DimensionMismatch { left_rows: 1, left_cols: 2, right_rows: 1, right_cols: 2 }
    );
}

#[test]
fn transpose_twice_is_identity() {
    let a = m(vec![vec![1.0, 2.0, 3.0], vec![4.0, 5.0, 6.0]]);
    let t = a.transpose();
    assert_eq!((t.rows, t.cols), (3, 2));
    assert_eq!(values(&t), vec![1.0, 4.0, 2.0, 5.0, 3.0, 6.0]);
    let tt = t.transpose();
    assert_eq!((tt.rows, tt.cols), (2, 3));
    assert_eq!(values(&tt), values(&a));
}

#[test]
fn hadamard_commutes() {
    let a = m(vec![vec![0.1, -2.5], vec![3.25, 1e-3]]);
    let b = m(vec![vec![7.0, 0.3], vec![-1.5, 42.0]]);
    assert_eq!(values(&a.hadamard(&b).unwrap()), values(&b.hadamard(&a).unwrap()));
    assert_eq!(values(&a.hadamard(&b).unwrap()), vec![0.1 * 7.0, -2.5 * 0.3, 3.25 * -1.5, 1e-3 * 42.0]);
}

#[test]
fn sum_then_subtract_round_trips() {
    let a = m(vec![vec![0.1, 0.2], vec![0.3, 0.4]]);
    let b = m(vec![vec![1.5, -2.0], vec![3.0, 0.25]]);
    let back = a.sum(&b).unwrap().subtract(&b).unwrap();
    for (x, y) in values(&back).iter().zip(values(&a).iter()) {
        assert!((x - y).abs() < 1e-12);
    }
    assert!(a.sum(&m(vec![vec![1.0]])).is_err());
}

#[test]
fn scale_and_map() {
    let a = m(vec![vec![1.0, -2.0]]);
    assert_eq!(values(&a.scale(F(3.0))), vec![3.0, -6.0]);
    let mapped = a.map(&|x: F, i: usize, j: usize| F(x.0 + (10 * i + j) as f64));
    assert_eq!(values(&mapped), vec![1.0, -1.0]);
}

#[test]
fn omit_removes_a_column() {
    let a = m(vec![vec![1.0, 2.0, 3.0], vec![4.0, 5.0, 6.0]]);
    let o = a.omit(0).unwrap();
    assert_eq!((o.rows, o.cols), (2, 2));
    assert_eq!(values(&o), vec![2.0, 3.0, 5.0, 6.0]);
    assert_eq!(values(&a.omit(1).unwrap()), vec![1.0, 3.0, 4.0, 6.0]);
    assert!(col(vec![1.0, 2.0]).omit(0).is_err());
    assert_eq!(a.omit(3).unwrap_err(), NetworkError::IndexOutOfRange);
}

#[test]
fn unshift_prepends_to_column() {
    let v = col(vec![2.0, 3.0]);
    let u = v.unshift(F(1.0)).unwrap();
    assert_eq!((u.rows, u.cols), (3, 1));
    assert_eq!(values(&u), vec![1.0, 2.0, 3.0]);
    assert!(m(vec![vec![1.0, 2.0]]).unshift(F(1.0)).is_err());
}

#[test]
fn nested_rows_round_trip() {
    let a = m(vec![vec![1.0, 2.0], vec![3.0, 4.0], vec![5.0, 6.0]]);
    let arrays = a.to_arrays();
    assert_eq!(arrays.len(), 3);
    assert_eq!(arrays[2], vec![F(5.0), F(6.0)]);
    let ragged = vec![vec![F(1.0), F(2.0)], vec![F(3.0)]];
    assert!(Matrix::from_rows(&ragged).is_err());
}

#[test]
fn softmax_sums_to_one_and_ignores_shift() {
    let x = col(vec![1.0, 2.0, 3.0, -4.0]);
    let s = softmax_fn(&x);
    let total: f64 = values(&s).iter().sum();
    assert!((total - 1.0).abs() < 1e-9);
    let shifted = softmax_fn(&col(vec![101.0, 102.0, 103.0, 96.0]));
    for (a, b) in values(&s).iter().zip(values(&shifted).iter()) {
        assert!((a - b).abs() < 1e-12);
    }
    let big = softmax_fn(&col(vec![1000.0, 1000.0]));
    assert_eq!(values(&big), vec![0.5, 0.5]);
}

#[test]
fn sigmoid_at_zero_and_its_derivative() {
    assert_eq!(sigmoid_fn(F(0.0)), F(0.5));
    let sums = col(vec![-1.5, 0.0, 2.0]);
    let forward_values = forward(ActivationFunctionKey::Sigmoid, &sums, true).unwrap();
    let derivative = backward(ActivationFunctionKey::Sigmoid, &sums).unwrap();
    for (f, d) in values(&forward_values).iter().zip(values(&derivative).iter()) {
        assert_eq!(*d, f * (1.0 - f));
    }
}

#[test]
fn hidden_forward_adds_bias_row() {
    let sums = col(vec![-1.0, 2.0]);
    let relu = forward(ActivationFunctionKey::ReLu, &sums, false).unwrap();
    assert_eq!(values(&relu), vec![1.0, 0.0, 2.0]);
    let tanh = forward(ActivationFunctionKey::TanH, &col(vec![0.0]), true).unwrap();
    assert_eq!(values(&tanh), vec![0.0]);
}

#[test]
fn softmax_has_no_backward() {
    assert_eq!(
        backward(ActivationFunctionKey::Softmax, &col(vec![1.0])).unwrap_err(),
        NetworkError::UnsupportedOperation
    );
}

#[test]
fn loss_values() {
    let out = col(vec![0.5, 0.25]);
    let want = col(vec![1.0, 0.0]);
    assert_eq!(loss(ErrorFunctionKey::MeanSquared, &out, &want).unwrap(), F(0.25 + 0.0625));
    assert_eq!(values(&grad(ErrorFunctionKey::MeanSquared, &out, &want).unwrap()), vec![-0.5, 0.25]);
    let ce = loss(ErrorFunctionKey::CrossEntropy, &out, &want).unwrap();
    assert!((ce.0 - 2f64.ln()).abs() < 1e-12);
    assert_eq!(values(&grad(ErrorFunctionKey::CrossEntropy, &out, &want).unwrap()), vec![-2.0, -0.0]);
    let t = col(vec![0.25]);
    let y = col(vec![1.0]);
    let ll = loss(ErrorFunctionKey::LogLoss, &t, &y).unwrap();
    assert!((ll.0 - 4f64.ln()).abs() < 1e-12);
    assert_eq!(values(&grad(ErrorFunctionKey::LogLoss, &t, &y).unwrap()), vec![(0.25 - 1.0) / (0.25 - 0.0625)]);
    assert!(loss(ErrorFunctionKey::MeanSquared, &out, &col(vec![1.0])).is_err());
}

#[test]
fn set_weights_refreshes_cache() {
    let mut layer = create_layer::<F>(2, ActivationFunctionKey::Sigmoid, ErrorFunctionKey::MeanSquared);
    let w = m(vec![vec![1.0, 2.0, 3.0], vec![4.0, 5.0, 6.0]]);
    layer.set_weights(w).unwrap();
    let expected = layer.weights.omit(0).unwrap().transpose();
    assert_eq!((layer.weights_transpose.rows, layer.weights_transpose.cols), (2, 2));
    assert_eq!(values(&layer.weights_transpose), values(&expected));
    assert_eq!(values(&layer.weights_transpose), vec![2.0, 5.0, 3.0, 6.0]);
    layer.set_weights(m(vec![vec![7.0, 8.0]])).unwrap();
    assert_eq!(values(&layer.weights_transpose), vec![8.0]);
    assert!(layer.set_weights(col(vec![1.0])).is_err());
    assert_eq!(values(&layer.weights), vec![7.0, 8.0]);
}

#[test]
fn softmax_cross_entropy_delta_is_difference() {
    let mut layer = create_layer::<F>(2, ActivationFunctionKey::Softmax, ErrorFunctionKey::CrossEntropy);
    layer.initialize(m(vec![vec![0.1, 0.2, 0.3], vec![-0.4, 0.5, 0.6]]), true).unwrap();
    let input = col(vec![1.0, 0.7, -0.2]);
    let expected = col(vec![0.0, 1.0]);
    let result = layer.forward_pass(&input, &expected).unwrap();
    let delta = layer.output_pass(&result, &expected).unwrap();
    let activated = values(&result.activated);
    assert_eq!(values(&delta), vec![activated[0] - 0.0, activated[1] - 1.0]);
}

#[test]
fn softmax_with_other_loss_is_invalid() {
    let mut layer = create_layer::<F>(1, ActivationFunctionKey::Softmax, ErrorFunctionKey::MeanSquared);
    layer.initialize(m(vec![vec![0.1, 0.2]]), true).unwrap();
    let result = ForwardPassResult { sum: col(vec![0.3]), activated: col(vec![1.0]), error: F(0.0) };
    assert_eq!(layer.output_pass(&result, &col(vec![1.0])).unwrap_err(), NetworkError::InvalidCombination);
}

#[test]
fn initialize_without_layers_fails() {
    let mut network: Network<F> = create_network(ErrorFunctionKey::MeanSquared);
    let result = network.initialize(vec![item(vec![1.0], vec![1.0])], vec![]);
    assert_eq!(result.unwrap_err(), NetworkError::MissingLayers);
}

#[test]
fn initialize_rejects_unchained_weights() {
    let mut network: Network<F> = create_network(ErrorFunctionKey::MeanSquared);
    network.add(ActivationFunctionKey::TanH, 2);
    network.add(ActivationFunctionKey::Sigmoid, 1);
    let w1 = vec![vec![F(0.5), F(0.5), F(0.5)], vec![F(-0.5), F(-0.5), F(-0.5)]];
    let w2 = vec![vec![F(-0.5), F(0.5)]];
    assert!(network.initialize(vec![], vec![w1, w2]).is_err());
    assert_eq!(network.weight_shapes(2), vec![(2, 3), (1, 3)]);
}

#[test]
fn missing_learning_rate() {
    assert_eq!(get_learning_rate::<F, Halving>(None, &None, 3).unwrap_err(), NetworkError::MissingLearningRate);
    assert_eq!(get_learning_rate::<F, Halving>(Some(F(0.1)), &None, 3).unwrap(), F(0.1));
    assert_eq!(get_learning_rate::<F, Halving>(Some(F(0.1)), &Some(Halving), 2).unwrap(), F(0.25));
}

#[test]
fn single_step_of_plain_gradient_descent() {
    // One sigmoid neuron scored with log loss on inputs (1, 0), bias weight 0.1.
    let mut network: Network<F> = create_network(ErrorFunctionKey::LogLoss);
    network.add(ActivationFunctionKey::Sigmoid, 1);
    let w = vec![vec![F(0.1), F(0.2), F(-0.3)]];
    network.initialize(vec![item(vec![1.0, 0.0], vec![1.0])], vec![w]).unwrap();
    let gradients = network.compute_gradients().unwrap();
    // sum = 0.1 + 0.2 = 0.3, t = sigmoid(0.3), loss = -ln t, delta = t - 1.
    let t = 1.0 / (1.0 + (-0.3f64).exp());
    assert!((gradients.loss.0 + t.ln()).abs() < 1e-12);
    let g = values(&gradients.gradients[0]);
    assert!((g[0] - (t - 1.0)).abs() < 1e-12);
    assert!((g[1] - (t - 1.0)).abs() < 1e-12);
    assert_eq!(g[2], 0.0);
    let mut optimizer = sgd_optimizer::<F, Halving>(Some(F(0.5)), None);
    optimizer.do_update(&gradients, &mut network, 0).unwrap();
    let after = values(&network.layers[0].weights);
    let before = [0.1, 0.2, -0.3];
    for k in 0..3 {
        assert_eq!(after[k], before[k] + (0.0 * 0.0 - 0.5 * g[k]));
    }
    assert_eq!(values(&network.layers[0].weights_transpose), vec![after[1], after[2]]);
}

#[test]
fn optimizer_without_rate_fails() {
    let mut network: Network<F> = create_network(ErrorFunctionKey::MeanSquared);
    network.add(ActivationFunctionKey::Sigmoid, 1);
    network.initialize(vec![item(vec![1.0], vec![1.0])], vec![vec![vec![F(0.0), F(1.0)]]]).unwrap();
    let gradients = network.compute_gradients().unwrap();
    let mut optimizer = sgd_optimizer::<F, Halving>(None, None);
    assert_eq!(optimizer.do_update(&gradients, &mut network, 0).unwrap_err(), NetworkError::MissingLearningRate);
}

#[test]
fn xor_training_converges() {
    let w1 = vec![vec![F(0.5), F(0.5), F(0.5)], vec![F(-0.5), F(-0.5), F(-0.5)]];
    let w2 = vec![vec![F(-0.5), F(0.5), F(0.5)]];
    let dataset = vec![
        item(vec![1.0, 1.0], vec![0.0]),
        item(vec![1.0, 0.0], vec![1.0]),
        item(vec![0.0, 1.0], vec![1.0]),
        item(vec![0.0, 0.0], vec![0.0]),
    ];
    let mut network: Network<F> = create_network(ErrorFunctionKey::LogLoss);
    network.add(ActivationFunctionKey::TanH, 2);
    network.add(ActivationFunctionKey::Sigmoid, 1);
    network.initialize(dataset, vec![w1, w2]).unwrap();
    let mut optimizer = sgd_optimizer::<F, Halving>(Some(F(1.0)), None);
    let first = network.compute_gradients().unwrap().loss.0;
    for i in 0..300 {
        let data = network.compute_gradients().unwrap();
        optimizer.do_update(&data, &mut network, i).unwrap();
    }
    let last = network.compute_gradients().unwrap().loss.0;
    assert!(last < first);
    assert!(last < 0.05, "loss after training: {}", last);
}

#[test]
fn batches_are_distinct_draws() {
    let indices = sample_indices(10, 10);
    let mut sorted = indices.clone();
    sorted.sort();
    assert_eq!(sorted, (0..10).collect::<Vec<usize>>());
    let dataset: Vec<DataSetItem<F>> = (0..20).map(|k| item(vec![k as f64], vec![0.0])).collect();
    let batch = generate_batch(&dataset, 5);
    assert_eq!(batch.len(), 5);
    let mut seen: Vec<f64> = batch.iter().map(|b| b.input[0].0).collect();
    seen.sort_by(|a, b| a.partial_cmp(b).unwrap());
    seen.dedup();
    assert_eq!(seen.len(), 5);
    assert!(generate_batch(&dataset, 0).is_empty());
}

#[test]
fn predict_checks_example_shape() {
    let mut network: Network<F> = create_network(ErrorFunctionKey::MeanSquared);
    network.add(ActivationFunctionKey::ReLu, 2);
    network.add(ActivationFunctionKey::Sigmoid, 1);
    let w1 = vec![vec![F(0.0), F(1.0)], vec![F(1.0), F(-1.0)]];
    let w2 = vec![vec![F(0.0), F(1.0), F(1.0)]];
    network.initialize(vec![item(vec![2.0], vec![1.0])], vec![w1, w2]).unwrap();
    let result = network.predict(&item(vec![2.0], vec![1.0])).unwrap();
    assert_eq!(result.results.len(), 2);
    assert_eq!(values(&result.activated_input), vec![1.0, 2.0]);
    assert_eq!(values(&result.results[0].sum), vec![2.0, -1.0]);
    assert_eq!(values(&result.results[0].activated), vec![1.0, 2.0, 0.0]);
    assert_eq!(result.results[0].error, F(-1.0));
    let out = 1.0 / (1.0 + (-2.0f64).exp());
    assert_eq!(values(&result.results[1].activated), vec![out]);
    assert_eq!(result.results[1].error, F((out - 1.0) * (out - 1.0)));
    assert!(network.predict(&item(vec![2.0, 3.0], vec![1.0])).is_err());
    assert!(network.predict(&item(vec![2.0], vec![1.0, 0.0])).is_err());
}

#[test]
fn hidden_softmax_cannot_be_trained() {
    let mut network: Network<F> = create_network(ErrorFunctionKey::MeanSquared);
    network.add(ActivationFunctionKey::Softmax, 2);
    network.add(ActivationFunctionKey::Sigmoid, 1);
    let w1 = vec![vec![F(0.1), F(0.2)], vec![F(0.3), F(0.4)]];
    let w2 = vec![vec![F(0.5), F(0.6), F(0.7)]];
    network.initialize(vec![item(vec![1.0], vec![1.0])], vec![w1, w2]).unwrap();
    assert!(network.predict(&item(vec![1.0], vec![1.0])).is_ok());
    assert_eq!(network.compute_gradients().unwrap_err(), NetworkError::UnsupportedOperation);
}

#[test]
fn gradients_average_over_the_batch() {
    let mut network: Network<F> = create_network(ErrorFunctionKey::MeanSquared);
    network.add(ActivationFunctionKey::ReLu, 1);
    let w = vec![vec![vec![F(0.0), F(1.0)]]];
    network.initialize(vec![item(vec![3.0], vec![1.0]), item(vec![5.0], vec![1.0])], w).unwrap();
    let result = network.compute_gradients().unwrap();
    // Deltas 2 and 4 with activations (1, 3) and (1, 5), each halved.
    assert_eq!(values(&result.gradients[0]), vec![(2.0 * 1.0) / 2.0 + (4.0 * 1.0) / 2.0, (2.0 * 3.0) / 2.0 + (4.0 * 5.0) / 2.0]);
    assert_eq!(result.loss, F(4.0 / 2.0 + 16.0 / 2.0));
}

#[test]
fn iterate_visits_first_column_in_order() {
    let a = m(vec![vec![1.0, 9.0], vec![2.0, 9.0], vec![3.0, 9.0]]);
    let mut seen: Vec<(f64, usize)> = Vec::new();
    a.iterate(&mut |x: F, i: usize| seen.push((x.0, i)));
    assert_eq!(seen, vec![(1.0, 0), (2.0, 1), (3.0, 2)]);
}

#[test]
fn two_momentum_steps_compose() {
    let mut network: Network<F> = create_network(ErrorFunctionKey::MeanSquared);
    network.add(ActivationFunctionKey::Sigmoid, 1);
    network.initialize(vec![item(vec![1.0], vec![1.0])], vec![vec![vec![F(0.25), F(-0.5)]]]).unwrap();
    let mut optimizer = sgd_optimizer::<F, Halving>(Some(F(0.5)), None);
    optimizer.momentum = F(0.9);
    let g1 = network.compute_gradients().unwrap();
    optimizer.do_update(&g1, &mut network, 0).unwrap();
    let g2 = network.compute_gradients().unwrap();
    optimizer.do_update(&g2, &mut network, 1).unwrap();
    let w0 = [0.25, -0.5];
    let a = values(&g1.gradients[0]);
    let b = values(&g2.gradients[0]);
    let after = values(&network.layers[0].weights);
    for k in 0..2 {
        let v1 = 0.9 * 0.0 - 0.5 * a[k];
        let v2 = 0.9 * v1 - 0.5 * b[k];
        assert_eq!(after[k], (w0[k] + v1) + v2);
    }
}

#[test]
fn empty_batch_gives_zero_gradients() {
    let mut network: Network<F> = create_network(ErrorFunctionKey::MeanSquared);
    network.add(ActivationFunctionKey::Sigmoid, 1);
    network.initialize(vec![], vec![vec![vec![F(f64::INFINITY), F(1.0)]]]).unwrap();
    let result = network.compute_gradients().unwrap();
    assert_eq!(values(&result.gradients[0]), vec![0.0, 0.0]);
    assert_eq!(result.loss, F(0.0));
}
