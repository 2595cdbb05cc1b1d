use pappap_core::fixed_point::FixedPoint;
use pappap_core::snn::{Layer, Neuron, SNN};
use pappap_core::trainer::{AutoTrainer, TrainerAction};

#[test]
fn default_neuron_parameters() {
    let n = Neuron::new(4);
    assert_eq!(n.potential.raw, 0);
    assert_eq!(n.threshold.raw, 65536);
    assert_eq!(n.decay.raw, 58982);
    assert_eq!(n.weights.len(), 4);
    assert_eq!(n.weights[0].raw, 655);
    assert_eq!(n.last_spike_height, 0);
}

#[test]
fn layer_forward_decays_below_threshold() {
    let mut layer = Layer::new(1, 1);
    let out = layer.forward(&vec![FixedPoint::from_int(1)], 5);
    // activation: 1.0 * 0.00999... == raw 655, below threshold
    assert_eq!(out.len(), 1);
    assert_eq!(out[0].raw, 0);
    // potential decayed: floor(655 * 58982 / 65536) == 589
    assert_eq!(layer.neurons[0].potential.raw, 589);
    assert_eq!(layer.neurons[0].last_spike_height, 0);
}

#[test]
fn layer_forward_spikes_at_threshold() {
    let mut layer = Layer::new(1, 1);
    // 100.0 * 0.00999... == raw 65500; second pass crosses the threshold
    let big = vec![FixedPoint::from_int(100)];
    let out1 = layer.forward(&big, 41);
    assert_eq!(out1[0].raw, 0);
    let out2 = layer.forward(&big, 42);
    assert_eq!(out2[0].raw, 65536);
    assert_eq!(layer.neurons[0].potential.raw, 0);
    assert_eq!(layer.neurons[0].last_spike_height, 42);
}

#[test]
fn network_shape_is_fixed() {
    let net = SNN::new();
    assert_eq!(net.layers.len(), 2);
    assert_eq!(net.layers[0].neurons.len(), 128);
    assert_eq!(net.layers[0].neurons[0].weights.len(), 64);
    assert_eq!(net.layers[1].neurons.len(), 10);
    assert_eq!(net.layers[1].neurons[0].weights.len(), 128);
}

#[test]
fn two_scorers_evolve_bit_identically() {
    let mut a = SNN::new();
    let mut b = SNN::new();
    assert_eq!(a, b);
    for height in 1..40u64 {
        let ia: Vec<FixedPoint> = (0..64).map(|k| FixedPoint::from_raw(65536 + k)).collect();
        let ib: Vec<FixedPoint> = (0..64).map(|k| FixedPoint::from_raw(65536 + k)).collect();
        let oa = a.process(ia, height);
        let ob = b.process(ib, height);
        assert_eq!(oa, ob);
        assert_eq!(a, b);
    }
    let sa = a.score(100);
    let sb = b.score(100);
    assert_eq!(sa, sb);
    assert_eq!(a, b);
}

#[test]
fn score_is_reproducible_from_equal_state() {
    let mut a = SNN::new();
    let mut b = SNN::new();
    let mut last_a = Vec::new();
    let mut last_b = Vec::new();
    for height in 1..30u64 {
        last_a.push(a.score(height).raw);
        last_b.push(b.score(height).raw);
    }
    assert_eq!(last_a, last_b);
    // the integrated potential must eventually cross the threshold: with 64
    // unit inputs each pass adds raw 41920 to every hidden neuron
    assert!(last_a.iter().any(|s| *s > 0));
    // the very first pass cannot spike: 41920 < 65536
    assert_eq!(last_a[0], 0);
}

#[test]
fn trainer_homeostasis_rule() {
    assert_eq!(
        AutoTrainer::next_adjustment(FixedPoint::from_int(101)),
        TrainerAction::Inhibit
    );
    assert_eq!(
        AutoTrainer::next_adjustment(FixedPoint::from_int(9)),
        TrainerAction::Stimulate
    );
    assert_eq!(AutoTrainer::next_adjustment(FixedPoint::from_int(50)), TrainerAction::Hold);
    assert_eq!(AutoTrainer::next_adjustment(FixedPoint::from_int(100)), TrainerAction::Hold);
    assert_eq!(AutoTrainer::next_adjustment(FixedPoint::from_int(10)), TrainerAction::Hold);
    assert_eq!(
        AutoTrainer::next_adjustment(FixedPoint::from_raw(6553601)),
        TrainerAction::Inhibit
    );
    assert_eq!(
        AutoTrainer::next_adjustment(FixedPoint::from_raw(655359)),
        TrainerAction::Stimulate
    );
}
