//! The scorer: a deterministic fixed-point spiking network.
//!
//! The network's state must evolve identically on every conforming node given
//! an identical call sequence — the central correctness invariant of the
//! system. Every step is therefore specified as a pure function of (prior
//! state, input vector, height): per neuron, the weighted input sum is
//! accumulated into the membrane potential; at or above the threshold the
//! neuron spikes, resets its potential and records the height; below it the
//! potential decays. All arithmetic is saturating fixed-point, in a fixed
//! order, so the result does not depend on hardware or scheduling.

use vstd::prelude::*;
use crate::fixed_point::{FixedPoint, fx_add, fx_mul};

verus! {

/// Raw fixed-point value of the default connection weight (0.01, rounded to
/// the protocol's 16 fractional bits).
pub const DEFAULT_WEIGHT_RAW: i64 = 655;

/// Raw fixed-point value of the spike threshold (1.0).
pub const THRESHOLD_RAW: i64 = 65536;

/// Raw fixed-point value of the per-tick decay factor (0.9, rounded to the
/// protocol's 16 fractional bits).
pub const DECAY_RAW: i64 = 58982;

/// Raw fixed-point value of a spike output (1.0).
pub const SPIKE_RAW: i64 = 65536;

/// One spiking neuron.
#[derive(Clone, Debug, PartialEq, Eq)]
pub struct Neuron {
    /// Membrane potential: the accumulator of recent weighted input.
    pub potential: FixedPoint,
    /// Potential at or above which the neuron spikes.
    pub threshold: FixedPoint,
    /// Factor applied to the potential on a tick without a spike.
    pub decay: FixedPoint,
    /// Connection weights, one per input.
    pub weights: Vec<FixedPoint>,
    /// The height at which this neuron last spiked.
    pub last_spike_height: u64,
}

/// The mathematical value of a neuron.
#[verifier::ext_equal]
pub ghost struct NeuronModel {
    pub potential: FixedPoint,
    pub threshold: FixedPoint,
    pub decay: FixedPoint,
    pub weights: Seq<FixedPoint>,
    pub last_spike_height: u64,
}

impl View for Neuron {
    type V = NeuronModel;

    open spec fn view(&self) -> NeuronModel {
        NeuronModel {
            potential: self.potential,
            threshold: self.threshold,
            decay: self.decay,
            weights: self.weights@,
            last_spike_height: self.last_spike_height,
        }
    }
}

/// A freshly built neuron with default parameters and `input_size` default
/// weights.
pub open spec fn spec_default_neuron(input_size: nat) -> NeuronModel {
    NeuronModel {
        potential: FixedPoint { raw: 0 },
        threshold: FixedPoint { raw: THRESHOLD_RAW },
        decay: FixedPoint { raw: DECAY_RAW },
        weights: Seq::new(input_size, |i: int| FixedPoint { raw: DEFAULT_WEIGHT_RAW }),
        last_spike_height: 0,
    }
}

/// The saturating weighted sum of the first `k` inputs against the weights,
/// accumulated in index order: inputs beyond the weight vector are ignored.
pub open spec fn spec_activation(inputs: Seq<FixedPoint>, weights: Seq<FixedPoint>, k: int) -> FixedPoint
    decreases k,
{
    if k <= 0 {
        FixedPoint { raw: 0 }
    } else {
        let prev = spec_activation(inputs, weights, k - 1);
        if k - 1 < weights.len() {
            FixedPoint { raw: fx_add(prev.raw as int, fx_mul(inputs[k - 1].raw as int, weights[k - 1].raw as int)) as i64 }
        } else {
            prev
        }
    }
}

/// The membrane potential after integrating the inputs, before the threshold
/// test.
pub open spec fn spec_integrated(n: NeuronModel, inputs: Seq<FixedPoint>) -> FixedPoint {
    FixedPoint {
        raw: fx_add(
            n.potential.raw as int,
            spec_activation(inputs, n.weights, inputs.len() as int).raw as int,
        ) as i64,
    }
}

/// Whether the neuron spikes on these inputs.
pub open spec fn spec_spikes(n: NeuronModel, inputs: Seq<FixedPoint>) -> bool {
    spec_integrated(n, inputs).raw >= n.threshold.raw
}

/// The neuron's state after one tick: on a spike the potential resets and the
/// height is recorded; otherwise the integrated potential decays.
pub open spec fn spec_neuron_after(n: NeuronModel, inputs: Seq<FixedPoint>, height: u64) -> NeuronModel {
    let integrated = spec_integrated(n, inputs);
    if spec_spikes(n, inputs) {
        NeuronModel { potential: FixedPoint { raw: 0 }, last_spike_height: height, ..n }
    } else {
        NeuronModel {
            potential: FixedPoint { raw: fx_mul(integrated.raw as int, n.decay.raw as int) as i64 },
            ..n
        }
    }
}

/// The neuron's output for one tick: one on a spike, zero otherwise.
pub open spec fn spec_neuron_out(n: NeuronModel, inputs: Seq<FixedPoint>) -> FixedPoint {
    if spec_spikes(n, inputs) {
        FixedPoint { raw: SPIKE_RAW }
    } else {
        FixedPoint { raw: 0 }
    }
}

impl Neuron {
    /// A neuron with the protocol's default parameters, one weight per input.
    pub fn new(input_size: usize) -> (r: Neuron)
        ensures
            r@ == spec_default_neuron(input_size as nat),
    {
        let mut weights: Vec<FixedPoint> = Vec::new();
        let mut i: usize = 0;
        while i < input_size
            invariant
                i <= input_size,
                weights@.len() == i,
                forall|j: int| 0 <= j < i ==> weights@[j] == (FixedPoint { raw: DEFAULT_WEIGHT_RAW }),
            decreases input_size - i,
        {
            weights.push(FixedPoint { raw: DEFAULT_WEIGHT_RAW });
            i = i + 1;
        }
        proof {
            assert(weights@ =~= Seq::new(
                input_size as nat,
                |j: int| FixedPoint { raw: DEFAULT_WEIGHT_RAW },
            ));
        }
        let n = Neuron {
            potential: FixedPoint { raw: 0 },
            threshold: FixedPoint { raw: THRESHOLD_RAW },
            decay: FixedPoint { raw: DECAY_RAW },
            weights,
            last_spike_height: 0,
        };
        proof {
            assert(n@ =~= spec_default_neuron(input_size as nat));
        }
        n
    }

    /// One deterministic tick of a single neuron.
    fn step(self, inputs: &Vec<FixedPoint>, height: u64) -> (r: (Neuron, FixedPoint))
        ensures
            r.0@ == spec_neuron_after(self@, inputs@, height),
            r.1 == spec_neuron_out(self@, inputs@),
    {
        let mut activation = FixedPoint::zero();
        let mut i: usize = 0;
        while i < inputs.len()
            invariant
                i <= inputs@.len(),
                activation == spec_activation(inputs@, self.weights@, i as int),
            decreases inputs@.len() - i,
        {
            if i < self.weights.len() {
                activation = activation.add_sat(inputs[i].mul_sat(self.weights[i]));
            }
            i = i + 1;
        }
        let integrated = self.potential.add_sat(activation);
        if integrated.ge(self.threshold) {
            let n2 = Neuron {
                potential: FixedPoint::zero(),
                last_spike_height: height,
                ..self
            };
            (n2, FixedPoint { raw: SPIKE_RAW })
        } else {
            let n2 = Neuron { potential: integrated.mul_sat(self.decay), ..self };
            (n2, FixedPoint::zero())
        }
    }
}

/// An ordered set of neurons fed from the same input vector.
#[derive(Clone, Debug, PartialEq, Eq)]
pub struct Layer {
    pub neurons: Vec<Neuron>,
}

impl View for Layer {
    type V = Seq<NeuronModel>;

    open spec fn view(&self) -> Seq<NeuronModel> {
        self.neurons@.map_values(|n: Neuron| n@)
    }
}

/// Every neuron of the layer after one tick.
pub open spec fn spec_layer_after(l: Seq<NeuronModel>, inputs: Seq<FixedPoint>, height: u64) -> Seq<NeuronModel> {
    Seq::new(l.len(), |i: int| spec_neuron_after(l[i], inputs, height))
}

/// Every neuron's output for one tick, in neuron order.
pub open spec fn spec_layer_out(l: Seq<NeuronModel>, inputs: Seq<FixedPoint>) -> Seq<FixedPoint> {
    Seq::new(l.len(), |i: int| spec_neuron_out(l[i], inputs))
}

impl Layer {
    /// A layer of `size` default neurons, each with `input_size` weights.
    pub fn new(size: usize, input_size: usize) -> (r: Layer)
        ensures
            r@ == Seq::new(size as nat, |i: int| spec_default_neuron(input_size as nat)),
    {
        let mut neurons: Vec<Neuron> = Vec::new();
        let mut i: usize = 0;
        while i < size
            invariant
                i <= size,
                neurons@.len() == i,
                forall|j: int| 0 <= j < i ==> (#[trigger] neurons@[j])@ == spec_default_neuron(
                    input_size as nat,
                ),
            decreases size - i,
        {
            neurons.push(Neuron::new(input_size));
            i = i + 1;
        }
        let l = Layer { neurons };
        proof {
            assert(l@ =~= Seq::new(size as nat, |j: int| spec_default_neuron(input_size as nat)));
        }
        l
    }

    /// One deterministic tick of the whole layer: every neuron steps against
    /// the same input vector, in index order.
    pub fn forward(&mut self, inputs: &Vec<FixedPoint>, current_height: u64) -> (out: Vec<FixedPoint>)
        ensures
            final(self)@ == spec_layer_after(old(self)@, inputs@, current_height),
            out@ == spec_layer_out(old(self)@, inputs@),
    {
        let mut pending: Vec<Neuron> = Vec::new();
        core::mem::swap(&mut self.neurons, &mut pending);
        let ghost orig = pending@.map_values(|n: Neuron| n@);
        let mut out: Vec<FixedPoint> = Vec::new();
        let mut i: usize = 0;
        let total: usize = pending.len();
        while i < total
            invariant
                i <= total,
                total == orig.len(),
                pending@.len() == total - i,
                forall|j: int| 0 <= j < total - i ==> (#[trigger] pending@[j])@ == orig[i + j],
                self.neurons@.len() == i,
                forall|j: int| 0 <= j < i ==> (#[trigger] self.neurons@[j])@ == spec_neuron_after(
                    orig[j],
                    inputs@,
                    current_height,
                ),
                out@.len() == i,
                forall|j: int| 0 <= j < i ==> out@[j] == spec_neuron_out(orig[j], inputs@),
            decreases total - i,
        {
            let n = pending.remove(0);
            proof {
                assert(n@ == orig[i as int]);
            }
            let (n2, o) = n.step(inputs, current_height);
            self.neurons.push(n2);
            out.push(o);
            i = i + 1;
        }
        proof {
            assert(self.neurons@.map_values(|nn: Neuron| nn@) =~= spec_layer_after(
                orig,
                inputs@,
                current_height,
            ));
            assert(out@ =~= spec_layer_out(orig, inputs@));
        }
        out
    }
}

/// The layers of a network after one full pass, and the pass's output: each
/// layer steps on the previous layer's output, in order.
pub open spec fn spec_process(
    layers: Seq<Seq<NeuronModel>>,
    inputs: Seq<FixedPoint>,
    height: u64,
) -> (Seq<Seq<NeuronModel>>, Seq<FixedPoint>)
    decreases layers.len(),
{
    if layers.len() == 0 {
        (layers, inputs)
    } else {
        let first_after = spec_layer_after(layers[0], inputs, height);
        let first_out = spec_layer_out(layers[0], inputs);
        let rest = spec_process(layers.drop_first(), first_out, height);
        (seq![first_after] + rest.0, rest.1)
    }
}

/// The fixed, publicly known input vector that `score` feeds the network:
/// sixty-four ones. It depends on nothing local, so every node scores a
/// height against the same stimulus.
pub open spec fn spec_score_input() -> Seq<FixedPoint> {
    Seq::new(64, |i: int| FixedPoint { raw: 65536 })
}

/// The saturating sum of the first `k` outputs, in index order.
pub open spec fn spec_sum_outputs(s: Seq<FixedPoint>, k: int) -> FixedPoint
    decreases k,
{
    if k <= 0 {
        FixedPoint { raw: 0 }
    } else {
        FixedPoint { raw: fx_add(spec_sum_outputs(s, k - 1).raw as int, s[k - 1].raw as int) as i64 }
    }
}

/// The network state and the scalar spike score that one `score` call yields.
pub open spec fn spec_score(net: Seq<Seq<NeuronModel>>, height: u64) -> (Seq<Seq<NeuronModel>>, FixedPoint) {
    let r = spec_process(net, spec_score_input(), height);
    (r.0, spec_sum_outputs(r.1, r.1.len() as int))
}

/// The default network: a hidden layer of 128 neurons over 64 inputs feeding
/// an output layer of 10 neurons.
pub open spec fn spec_default_network() -> Seq<Seq<NeuronModel>> {
    seq![
        Seq::new(128, |i: int| spec_default_neuron(64)),
        Seq::new(10, |i: int| spec_default_neuron(128)),
    ]
}

/// The scorer's network: an ordered sequence of layers, applied one after the
/// other. This is the scorer's sole piece of mutable state.
#[derive(Clone, Debug, PartialEq, Eq)]
pub struct SNN {
    pub layers: Vec<Layer>,
}

impl View for SNN {
    type V = Seq<Seq<NeuronModel>>;

    open spec fn view(&self) -> Seq<Seq<NeuronModel>> {
        self.layers@.map_values(|l: Layer| l@)
    }
}

impl SNN {
    /// The default two-layer network.
    pub fn new() -> (r: SNN)
        ensures
            r@ == spec_default_network(),
    {
        let l1 = Layer::new(128, 64);
        let l2 = Layer::new(10, 128);
        let mut layers: Vec<Layer> = Vec::new();
        layers.push(l1);
        layers.push(l2);
        let net = SNN { layers };
        proof {
            assert(net@ =~= spec_default_network());
        }
        net
    }

    /// One deterministic forward pass: each layer steps on the previous
    /// layer's output; the final layer's output is returned.
    pub fn process(&mut self, inputs: Vec<FixedPoint>, height: u64) -> (out: Vec<FixedPoint>)
        ensures
            final(self)@ == spec_process(old(self)@, inputs@, height).0,
            out@ == spec_process(old(self)@, inputs@, height).1,
    {
        let mut pending: Vec<Layer> = Vec::new();
        core::mem::swap(&mut self.layers, &mut pending);
        let ghost orig = pending@.map_values(|l: Layer| l@);
        let ghost inputs0 = inputs@;
        let mut cur: Vec<FixedPoint> = inputs;
        let mut i: usize = 0;
        let total: usize = pending.len();
        while i < total
            invariant
                i <= total,
                total == orig.len(),
                pending@.len() == total - i,
                forall|j: int| 0 <= j < total - i ==> (#[trigger] pending@[j])@ == orig[i + j],
                self.layers@.len() == i,
                ({
                    let done = self.layers@.map_values(|l: Layer| l@);
                    let rem = pending@.map_values(|l: Layer| l@);
                    let rest = spec_process(rem, cur@, height);
                    spec_process(orig, inputs0, height) == (done + rest.0, rest.1)
                }),
            decreases total - i,
        {
            let ghost done0 = self.layers@.map_values(|l: Layer| l@);
            let ghost rem0 = pending@.map_values(|l: Layer| l@);
            let mut layer = pending.remove(0);
            proof {
                assert(layer@ == orig[i as int]);
                assert(rem0[0] == layer@);
                assert(rem0.drop_first() =~= pending@.map_values(|l: Layer| l@));
            }
            let next = layer.forward(&cur, height);
            self.layers.push(layer);
            proof {
                let fa = spec_layer_after(rem0[0], cur@, height);
                assert(self.layers@.map_values(|l: Layer| l@) =~= done0.push(fa));
                let rest1 = spec_process(rem0.drop_first(), spec_layer_out(rem0[0], cur@), height);
                assert(spec_process(rem0, cur@, height) == (seq![fa] + rest1.0, rest1.1));
                assert(done0 + (seq![fa] + rest1.0) =~= done0.push(fa) + rest1.0);
            }
            cur = next;
            i = i + 1;
        }
        proof {
            let done = self.layers@.map_values(|l: Layer| l@);
            let rem = pending@.map_values(|l: Layer| l@);
            assert(rem =~= Seq::<Seq<NeuronModel>>::empty());
            assert(spec_process(rem, cur@, height) == (rem, cur@));
            assert(done + rem =~= done);
        }
        cur
    }

    /// Scores a height: feeds the fixed public input vector through the
    /// network and reduces the output to one scalar spike score. A pure
    /// function of (prior state, height) alone — no clock, no randomness.
    pub fn score(&mut self, height: u64) -> (r: FixedPoint)
        ensures
            final(self)@ == spec_score(old(self)@, height).0,
            r == spec_score(old(self)@, height).1,
    {
        let mut input: Vec<FixedPoint> = Vec::new();
        let mut i: usize = 0;
        while i < 64
            invariant
                i <= 64,
                input@.len() == i,
                forall|j: int| 0 <= j < i ==> input@[j] == (FixedPoint { raw: 65536 }),
            decreases 64 - i,
        {
            input.push(FixedPoint { raw: 65536 });
            i = i + 1;
        }
        proof {
            assert(input@ =~= spec_score_input());
        }
        let out = self.process(input, height);
        let mut acc = FixedPoint::zero();
        let mut k: usize = 0;
        while k < out.len()
            invariant
                k <= out@.len(),
                acc == spec_sum_outputs(out@, k as int),
            decreases out@.len() - k,
        {
            acc = acc.add_sat(out[k]);
            k = k + 1;
        }
        acc
    }
}

/// The network state after an ordered sequence of (input, height) calls.
pub open spec fn spec_run(
    net: Seq<Seq<NeuronModel>>,
    calls: Seq<(Seq<FixedPoint>, u64)>,
) -> Seq<Seq<NeuronModel>>
    decreases calls.len(),
{
    if calls.len() == 0 {
        net
    } else {
        spec_run(spec_process(net, calls[0].0, calls[0].1).0, calls.drop_first())
    }
}

/// The outputs an ordered sequence of (input, height) calls produces, in call
/// order.
pub open spec fn spec_run_outputs(
    net: Seq<Seq<NeuronModel>>,
    calls: Seq<(Seq<FixedPoint>, u64)>,
) -> Seq<Seq<FixedPoint>>
    decreases calls.len(),
{
    if calls.len() == 0 {
        seq![]
    } else {
        seq![spec_process(net, calls[0].0, calls[0].1).1] + spec_run_outputs(
            spec_process(net, calls[0].0, calls[0].1).0,
            calls.drop_first(),
        )
    }
}

/// Law: the scorer is deterministic. Two networks with identical initial
/// state, fed the identical ordered sequence of (input, height) calls,
/// produce bit-identical outputs at every call and end in bit-identical
/// internal state. Every pass is a pure function of (state, input, height),
/// so equality of the starting states carries through the whole run.
pub proof fn lemma_scorer_deterministic(
    net1: Seq<Seq<NeuronModel>>,
    net2: Seq<Seq<NeuronModel>>,
    calls: Seq<(Seq<FixedPoint>, u64)>,
)
    requires
        net1 == net2,
    ensures
        spec_run(net1, calls) == spec_run(net2, calls),
        spec_run_outputs(net1, calls) == spec_run_outputs(net2, calls),
{
}

} // verus!
