use vstd::prelude::*;
use crate::failure::NetworkError;
use crate::matrix::Matrix;
use crate::network::{GradientResult, Network};
use crate::scalar::Scalar;

verus! {

/// A rule that applies computed gradients to a network's weights.
pub trait Optimizer<T: Scalar>: Sized {
    /// What one successful update does: from the optimizer `before` and
    /// network `net` to `after` and `net_after`, with gradients `g` at step
    /// `iteration`.
    spec fn applied(before: Self, after: Self, net: Network<T>, net_after: Network<T>, g: Seq<Matrix<T>>, iteration: u64) -> bool;

    /// The optimizer `before` has no learning rate to apply.
    spec fn lacks_rate(before: Self) -> bool;

    /// An update of `net` with gradients `g` by the optimizer `before` is
    /// owed success.
    spec fn ready(before: Self, net: Network<T>, g: Seq<Matrix<T>>) -> bool;

    /// Applies `gradient_result` to the weights of `network` at step
    /// `iteration`. The network stays initialized and keeps its shape.
    fn do_update(&mut self, gradient_result: &GradientResult<T>, network: &mut Network<T>, iteration: u64) -> (r: Result<(), NetworkError>)
        requires
            old(network).wf(),
        ensures
            final(network).wf(),
            final(network).layers@.len() == old(network).layers@.len(),
            final(network).dataset == old(network).dataset,
            Self::lacks_rate(*old(self)) ==> r == Err::<(), NetworkError>(NetworkError::MissingLearningRate),
            Self::ready(*old(self), *old(network), gradient_result.gradients@) ==> r is Ok,
            r is Err ==> final(network).layers@ == old(network).layers@,
            r is Ok ==> Self::applied(*old(self), *final(self), *old(network), *final(network), gradient_result.gradients@, iteration);
}

/// A learning rate that depends on the step number.
pub trait LearningRateSchedule<T> {
    spec fn spec_rate(&self, iteration: u64) -> T;

    /// The learning rate at step `iteration`.
    fn rate(&self, iteration: u64) -> (r: T)
        ensures
            r == self.spec_rate(iteration);
}

/// The learning rate for step `iteration`: the schedule's if there is one,
/// else the fixed rate.
pub open spec fn spec_learning_rate<T, S: LearningRateSchedule<T>>(lr: Option<T>, schedule: Option<S>, iteration: u64) -> T {
    match schedule {
        Some(s) => s.spec_rate(iteration),
        None => lr->Some_0,
    }
}

/// Gradient descent with momentum: `velocity ← momentum·velocity − lr·gradient`,
/// then `weights ← weights + velocity`, one velocity matrix per layer.
pub struct GradientDescentOptimizer<T, S> {
    pub learning_rate: Option<T>,
    pub learning_rate_schedule: Option<S>,
    pub momentum: T,
    pub is_nesterov: bool,
    pub current_weights: Vec<Matrix<T>>,
    pub velocity: Vec<Matrix<T>>,
    pub initialized: bool,
}

/// A momentum-free optimizer with a fixed rate, a schedule, or both (the
/// schedule wins).
pub fn sgd_optimizer<T: Scalar, S>(learning_rate: Option<T>, schedule: Option<S>) -> (r: GradientDescentOptimizer<T, S>)
    ensures
        r.learning_rate == learning_rate,
        r.learning_rate_schedule == schedule,
        r.momentum == T::spec_zero(),
        !r.is_nesterov,
        !r.is_initialized(),
{
    GradientDescentOptimizer {
        learning_rate,
        learning_rate_schedule: schedule,
        momentum: T::zero(),
        is_nesterov: false,
        current_weights: Vec::new(),
        velocity: Vec::new(),
        initialized: false,
    }
}

/// The learning rate for step `iteration`: the schedule's if there is one,
/// else the fixed rate, else `MissingLearningRate`.
pub fn get_learning_rate<T: Scalar, S: LearningRateSchedule<T>>(lr: Option<T>, schedule: &Option<S>, iteration: u64) -> (r: Result<T, NetworkError>)
    ensures
        schedule is None && lr is None ==> r == Err::<T, NetworkError>(NetworkError::MissingLearningRate),
        schedule is None && lr is Some ==> r == Ok::<T, NetworkError>(lr->Some_0),
        schedule is Some ==> r == Ok::<T, NetworkError>(schedule->Some_0.spec_rate(iteration)),
{
    match schedule {
        Some(s) => Ok(s.rate(iteration)),
        None => match lr {
            Some(rate) => Ok(rate),
            None => Err(NetworkError::MissingLearningRate),
        },
    }
}

impl<T: Scalar, S> GradientDescentOptimizer<T, S> {
    /// Whether the velocities have been set up.
    pub open spec fn is_initialized(&self) -> bool {
        self.initialized
    }

    /// The velocities, one per layer.
    pub open spec fn velocities(&self) -> Seq<Matrix<T>> {
        self.velocity@
    }

    /// `m` holds one well-formed matrix per entry of `like`, of its shape.
    pub open spec fn shaped_like(m: Seq<Matrix<T>>, like: Seq<Matrix<T>>) -> bool {
        &&& m.len() == like.len()
        &&& forall|i: int| 0 <= i < m.len() ==> (#[trigger] m[i]).wf() && m[i].same_shape(&like[i])
    }

    /// Zero velocities shaped like the gradients.
    fn initialize(&mut self, result: &GradientResult<T>)
        requires
            forall|i: int| 0 <= i < result.gradients@.len() ==> (#[trigger] result.gradients@[i]).wf(),
        ensures
            final(self).is_initialized(),
            Self::shaped_like(final(self).velocities(), result.gradients@),
            forall|l: int, i: int, j: int| 0 <= l < result.gradients@.len() && 0 <= i < result.gradients@[l].rows
                && 0 <= j < result.gradients@[l].cols
                ==> #[trigger] final(self).velocity@[l].at(i, j) == T::spec_zero(),
            final(self).learning_rate == old(self).learning_rate,
            final(self).learning_rate_schedule == old(self).learning_rate_schedule,
            final(self).momentum == old(self).momentum,
    {
        let mut velocity: Vec<Matrix<T>> = Vec::new();
        let mut i: usize = 0;
        while i < result.gradients.len()
            invariant
                forall|i: int| 0 <= i < result.gradients@.len() ==> (#[trigger] result.gradients@[i]).wf(),
                i <= result.gradients@.len(),
                Self::shaped_like(velocity@, result.gradients@.take(i as int)),
                forall|l: int, a: int, b: int| 0 <= l < i && 0 <= a < result.gradients@[l].rows && 0 <= b < result.gradients@[l].cols
                    ==> #[trigger] velocity@[l].at(a, b) == T::spec_zero(),
            decreases result.gradients@.len() - i,
        {
            let g = &result.gradients[i];
            velocity.push(Matrix::filled(g.rows, g.cols, T::zero()));
            i += 1;
        }
        assert(result.gradients@.take(i as int) == result.gradients@);
        self.velocity = velocity;
        self.initialized = true;
    }

    /// `velocity[i] ← momentum·velocity[i] − lr·gradient[i]` for every layer.
    fn update_velocity(&mut self, result: &GradientResult<T>, learning_rate: T)
        requires
            Self::shaped_like(old(self).velocities(), result.gradients@),
            forall|i: int| 0 <= i < result.gradients@.len() ==> (#[trigger] result.gradients@[i]).wf(),
        ensures
            Self::shaped_like(final(self).velocities(), result.gradients@),
            forall|l: int, i: int, j: int| 0 <= l < result.gradients@.len() && 0 <= i < result.gradients@[l].rows
                && 0 <= j < result.gradients@[l].cols
                ==> #[trigger] final(self).velocity@[l].at(i, j) == old(self).momentum.spec_times(old(self).velocity@[l].at(i, j))
                    .spec_minus(learning_rate.spec_times(result.gradients@[l].at(i, j))),
            final(self).is_initialized() == old(self).is_initialized(),
            final(self).learning_rate == old(self).learning_rate,
            final(self).learning_rate_schedule == old(self).learning_rate_schedule,
            final(self).momentum == old(self).momentum,
    {
        let gradients = &result.gradients;
        let mut new_vel: Vec<Matrix<T>> = Vec::new();
        let mut i: usize = 0;
        while i < self.velocity.len()
            invariant
                Self::shaped_like(self.velocity@, gradients@),
                forall|i: int| 0 <= i < gradients@.len() ==> (#[trigger] gradients@[i]).wf(),
                i <= self.velocity@.len(),
                Self::shaped_like(new_vel@, gradients@.take(i as int)),
                forall|l: int, a: int, b: int| 0 <= l < i && 0 <= a < gradients@[l].rows && 0 <= b < gradients@[l].cols
                    ==> #[trigger] new_vel@[l].at(a, b) == self.momentum.spec_times(self.velocity@[l].at(a, b))
                        .spec_minus(learning_rate.spec_times(gradients@[l].at(a, b))),
            decreases self.velocity@.len() - i,
        {
            let kept = self.velocity[i].scale(self.momentum);
            let step = gradients[i].scale(learning_rate);
            let layer_vel = kept.subtract(&step).unwrap();
            new_vel.push(layer_vel);
            i += 1;
        }
        assert(gradients@.take(i as int) == gradients@);
        self.velocity = new_vel;
    }
}

impl<T: Scalar, S: LearningRateSchedule<T>> GradientDescentOptimizer<T, S> {
    /// The velocity of layer `l` before a step: the kept one, or zero on the
    /// first step.
    pub open spec fn velocity_before(before: Self, g: Seq<Matrix<T>>, l: int, i: int, j: int) -> T {
        if before.initialized {
            before.velocity@[l].at(i, j)
        } else {
            T::spec_zero()
        }
    }

    /// One step from (`before`, `net`) to (`after`, `net_after`) with
    /// gradients `g`: `velocity ← momentum·velocity − lr·gradient` and
    /// `weights ← weights + velocity` entry by entry, at the rate the
    /// schedule or the fixed rate gives; everything else about the network
    /// stays.
    pub open spec fn stepped(before: Self, after: Self, net: Network<T>, net_after: Network<T>, g: Seq<Matrix<T>>, iteration: u64) -> bool {
        let lr = spec_learning_rate(before.learning_rate, before.learning_rate_schedule, iteration);
        &&& after.initialized
        &&& after.momentum == before.momentum
        &&& after.learning_rate == before.learning_rate
        &&& after.learning_rate_schedule == before.learning_rate_schedule
        &&& net_after.dataset == net.dataset
        &&& net_after.error == net.error
        &&& net_after.layers@.len() == net.layers@.len()
        &&& forall|l: int| 0 <= l < net.layers@.len() ==> {
            let a = #[trigger] net_after.layers@[l];
            let b = net.layers@[l];
            &&& a.neuron_count == b.neuron_count
            &&& a.activation_key == b.activation_key
            &&& a.error_key == b.error_key
            &&& a.is_output == b.is_output
            &&& a.weights.same_shape(&b.weights)
        }
        &&& forall|l: int, i: int, j: int| 0 <= l < g.len() && 0 <= i < g[l].rows && 0 <= j < g[l].cols
            ==> #[trigger] after.velocity@[l].at(i, j) == before.momentum.spec_times(Self::velocity_before(before, g, l, i, j))
                .spec_minus(lr.spec_times(g[l].at(i, j)))
        &&& forall|l: int, i: int, j: int| 0 <= l < g.len() && 0 <= i < g[l].rows && 0 <= j < g[l].cols
            ==> #[trigger] net_after.layers@[l].weights.at(i, j) == net.layers@[l].weights.at(i, j).spec_plus(after.velocity@[l].at(i, j))
    }

    /// One step of gradient descent with momentum. `MissingLearningRate`
    /// with neither a rate nor a schedule; `DimensionMismatch` when the
    /// gradients are not shaped like the network's weights, or (after the
    /// first step) like the velocities. On failure the network is left as
    /// it was.
    pub fn update(&mut self, result: &GradientResult<T>, network: &mut Network<T>, iteration: u64) -> (r: Result<(), NetworkError>)
        requires
            old(network).wf(),
        ensures
            final(network).wf(),
            final(network).layers@.len() == old(network).layers@.len(),
            final(network).dataset == old(network).dataset,
            old(self).learning_rate_schedule is None && old(self).learning_rate is None
                ==> r == Err::<(), NetworkError>(NetworkError::MissingLearningRate),
            ({
                &&& old(self).learning_rate_schedule is Some || old(self).learning_rate is Some
                &&& old(network).shaped_like_weights(result.gradients@)
                &&& old(self).is_initialized() ==> Self::shaped_like(old(self).velocities(), result.gradients@)
            }) ==> r is Ok && final(self).is_initialized() && Self::shaped_like(final(self).velocities(), result.gradients@),
            r is Err ==> final(network).layers@ == old(network).layers@,
            r is Ok ==> Self::stepped(*old(self), *final(self), *old(network), *final(network), result.gradients@, iteration),
    {
        let lr = get_learning_rate(self.learning_rate, &self.learning_rate_schedule, iteration)?;
        let count = network.layers.len();
        if result.gradients.len() != count {
            return Err(NetworkError::DimensionMismatch { left_rows: count, left_cols: 1, right_rows: result.gradients.len(), right_cols: 1 });
        }
        let mut i: usize = 0;
        while i < count
            invariant
                network.wf(),
                *network == *old(network),
                *self == *old(self),
                !(old(self).learning_rate_schedule is None && old(self).learning_rate is None),
                count == network.layers@.len(),
                result.gradients@.len() == count,
                i <= count,
                forall|k: int| 0 <= k < i ==> {
                    &&& (#[trigger] result.gradients@[k]).wf()
                    &&& result.gradients@[k].same_shape(&network.layers@[k].weights)
                },
            decreases count - i,
        {
            let g = &result.gradients[i];
            let w = &network.layers[i].weights;
            if g.rows != w.rows || g.cols != w.cols || !g.is_well_formed() {
                return Err(NetworkError::DimensionMismatch { left_rows: w.rows, left_cols: w.cols, right_rows: g.rows, right_cols: g.cols });
            }
            i += 1;
        }
        if !self.initialized {
            self.initialize(result);
        }
        if self.velocity.len() != count {
            return Err(NetworkError::DimensionMismatch { left_rows: count, left_cols: 1, right_rows: self.velocity.len(), right_cols: 1 });
        }
        let mut k: usize = 0;
        while k < count
            invariant
                network.wf(),
                *network == *old(network),
                self.learning_rate == old(self).learning_rate,
                self.learning_rate_schedule == old(self).learning_rate_schedule,
                self.is_initialized(),
                old(self).is_initialized() ==> self.velocity == old(self).velocity,
                !old(self).is_initialized() ==> Self::shaped_like(self.velocities(), result.gradients@),
                !old(self).is_initialized() ==> forall|l: int, i: int, j: int| 0 <= l < result.gradients@.len()
                    && 0 <= i < result.gradients@[l].rows && 0 <= j < result.gradients@[l].cols
                    ==> #[trigger] self.velocity@[l].at(i, j) == T::spec_zero(),
                self.momentum == old(self).momentum,
                lr == spec_learning_rate(old(self).learning_rate, old(self).learning_rate_schedule, iteration),
                !(old(self).learning_rate_schedule is None && old(self).learning_rate is None),
                count == network.layers@.len(),
                result.gradients@.len() == count,
                self.velocity@.len() == count,
                k <= count,
                forall|q: int| 0 <= q < count ==> {
                    &&& (#[trigger] result.gradients@[q]).wf()
                    &&& result.gradients@[q].same_shape(&network.layers@[q].weights)
                },
                forall|q: int| 0 <= q < k ==> {
                    &&& (#[trigger] self.velocity@[q]).wf()
                    &&& self.velocity@[q].same_shape(&result.gradients@[q])
                },
            decreases count - k,
        {
            let v = &self.velocity[k];
            let g = &result.gradients[k];
            if v.rows != g.rows || v.cols != g.cols || !v.is_well_formed() {
                return Err(NetworkError::DimensionMismatch { left_rows: g.rows, left_cols: g.cols, right_rows: v.rows, right_cols: v.cols });
            }
            k += 1;
        }
        let ghost mid = *self;
        self.update_velocity(result, lr);
        proof {
            assert forall|l: int, i: int, j: int| 0 <= l < result.gradients@.len() && 0 <= i < result.gradients@[l].rows
                && 0 <= j < result.gradients@[l].cols
                implies mid.velocity@[l].at(i, j) == Self::velocity_before(*old(self), result.gradients@, l, i, j) by {
            }
        }
        let ghost net0 = *network;
        let mut l: usize = 0;
        while l < count
            invariant
                network.wf(),
                count == network.layers@.len(),
                Self::shaped_like(self.velocity@, result.gradients@),
                self.is_initialized(),
                result.gradients@.len() == count,
                forall|q: int| 0 <= q < count ==> (#[trigger] result.gradients@[q]).same_shape(&network.layers@[q].weights),
                l <= count,
                self.initialized,
                self.momentum == old(self).momentum,
                self.learning_rate == old(self).learning_rate,
                self.learning_rate_schedule == old(self).learning_rate_schedule,
                *old(network) == net0,
                network.dataset == net0.dataset,
                network.error == net0.error,
                network.layers@.len() == net0.layers@.len(),
                forall|q: int| 0 <= q < count ==> {
                    let a = #[trigger] network.layers@[q];
                    let b = net0.layers@[q];
                    &&& a.neuron_count == b.neuron_count
                    &&& a.activation_key == b.activation_key
                    &&& a.error_key == b.error_key
                    &&& a.is_output == b.is_output
                    &&& a.weights.same_shape(&b.weights)
                    &&& q >= l ==> a == b
                },
                forall|q: int, i: int, j: int| 0 <= q < l && 0 <= i < result.gradients@[q].rows && 0 <= j < result.gradients@[q].cols
                    ==> #[trigger] network.layers@[q].weights.at(i, j) == net0.layers@[q].weights.at(i, j).spec_plus(self.velocity@[q].at(i, j)),
            decreases count - l,
        {
            let ghost prev = *network;
            let updated = network.layers[l].weights.sum(&self.velocity[l])?;
            network.update_weights(l, updated)?;
            proof {
                assert forall|q: int, i: int, j: int| 0 <= q < l + 1 && 0 <= i < result.gradients@[q].rows && 0 <= j < result.gradients@[q].cols
                    implies #[trigger] network.layers@[q].weights.at(i, j) == net0.layers@[q].weights.at(i, j).spec_plus(self.velocity@[q].at(i, j)) by {
                    if q < l {
                        assert(network.layers@[q] == prev.layers@[q]);
                    }
                }
            }
            l += 1;
        }
        Ok(())
    }
}

/// Two updates of a fresh optimizer compose as momentum gradient descent
/// says: with `v1 = momentum·0 − lr₁·g1` and `v2 = momentum·v1 − lr₂·g2`,
/// the weights end as `(w + v1) + v2`, entry by entry.
pub proof fn lemma_two_steps<T: Scalar, S: LearningRateSchedule<T>>(
    o0: GradientDescentOptimizer<T, S>,
    o1: GradientDescentOptimizer<T, S>,
    o2: GradientDescentOptimizer<T, S>,
    n0: Network<T>,
    n1: Network<T>,
    n2: Network<T>,
    g1: Seq<Matrix<T>>,
    g2: Seq<Matrix<T>>,
    i1: u64,
    i2: u64,
)
    requires
        !o0.initialized,
        n0.shaped_like_weights(g1),
        n0.shaped_like_weights(g2),
        GradientDescentOptimizer::stepped(o0, o1, n0, n1, g1, i1),
        GradientDescentOptimizer::stepped(o1, o2, n1, n2, g2, i2),
    ensures
        forall|l: int, i: int, j: int| 0 <= l < g1.len() && 0 <= i < g1[l].rows && 0 <= j < g1[l].cols ==> {
            let mu = o0.momentum;
            let lr1 = spec_learning_rate(o0.learning_rate, o0.learning_rate_schedule, i1);
            let lr2 = spec_learning_rate(o0.learning_rate, o0.learning_rate_schedule, i2);
            let v1 = mu.spec_times(T::spec_zero()).spec_minus(lr1.spec_times(g1[l].at(i, j)));
            let v2 = mu.spec_times(v1).spec_minus(lr2.spec_times(g2[l].at(i, j)));
            #[trigger] n2.layers@[l].weights.at(i, j) == n0.layers@[l].weights.at(i, j).spec_plus(v1).spec_plus(v2)
        },
{
    assert forall|l: int, i: int, j: int| 0 <= l < g1.len() && 0 <= i < g1[l].rows && 0 <= j < g1[l].cols implies {
        let mu = o0.momentum;
        let lr1 = spec_learning_rate(o0.learning_rate, o0.learning_rate_schedule, i1);
        let lr2 = spec_learning_rate(o0.learning_rate, o0.learning_rate_schedule, i2);
        let v1 = mu.spec_times(T::spec_zero()).spec_minus(lr1.spec_times(g1[l].at(i, j)));
        let v2 = mu.spec_times(v1).spec_minus(lr2.spec_times(g2[l].at(i, j)));
        #[trigger] n2.layers@[l].weights.at(i, j) == n0.layers@[l].weights.at(i, j).spec_plus(v1).spec_plus(v2)
    } by {
        assert(o1.velocity@[l].at(i, j) == o0.momentum.spec_times(T::spec_zero())
            .spec_minus(spec_learning_rate(o0.learning_rate, o0.learning_rate_schedule, i1).spec_times(g1[l].at(i, j))));
        assert(n1.layers@[l].weights.at(i, j) == n0.layers@[l].weights.at(i, j).spec_plus(o1.velocity@[l].at(i, j)));
        assert(o2.velocity@[l].at(i, j) == o1.momentum.spec_times(o1.velocity@[l].at(i, j))
            .spec_minus(spec_learning_rate(o1.learning_rate, o1.learning_rate_schedule, i2).spec_times(g2[l].at(i, j))));
        assert(n2.layers@[l].weights.at(i, j) == n1.layers@[l].weights.at(i, j).spec_plus(o2.velocity@[l].at(i, j)));
    }
}

impl<T: Scalar, S: LearningRateSchedule<T>> Optimizer<T> for GradientDescentOptimizer<T, S> {
    open spec fn applied(before: Self, after: Self, net: Network<T>, net_after: Network<T>, g: Seq<Matrix<T>>, iteration: u64) -> bool {
        Self::stepped(before, after, net, net_after, g, iteration)
    }

    open spec fn lacks_rate(before: Self) -> bool {
        before.learning_rate_schedule is None && before.learning_rate is None
    }

    open spec fn ready(before: Self, net: Network<T>, g: Seq<Matrix<T>>) -> bool {
        &&& before.learning_rate_schedule is Some || before.learning_rate is Some
        &&& net.shaped_like_weights(g)
        &&& before.is_initialized() ==> Self::shaped_like(before.velocities(), g)
    }

    fn do_update(&mut self, gradient_result: &GradientResult<T>, network: &mut Network<T>, iteration: u64) -> (r: Result<(), NetworkError>) {
        self.update(gradient_result, network, iteration)
    }
}

} // verus!
