use digital_life_core::genome::Genome;
use digital_life_core::nn::NeuralNet;
use digital_life_core::organism::controller_for;

#[test]
fn segment_layout_has_correct_sizes() {
    let nn_len = 212;
    let g = Genome::with_nn_weights(vec![0.0f32; nn_len], 0.0);
    let segs = g.segments();
    assert_eq!(segs[0], (0, 212), "segment 0: NN weights");
    assert_eq!(segs[1], (212, 16), "segment 1: metabolic network");
    assert_eq!(segs[2], (228, 8), "segment 2: homeostasis");
    assert_eq!(segs[3], (236, 8), "segment 3: developmental program");
    assert_eq!(segs[4], (244, 4), "segment 4: reproduction");
    assert_eq!(segs[5], (248, 4), "segment 5: sensory");
    assert_eq!(segs[6], (252, 4), "segment 6: evolution/mutation");
    assert_eq!(g.data().len(), 256, "total genome length");
}

#[test]
fn segment_data_returns_correct_slices() {
    let g = Genome::with_nn_weights(vec![1.0f32; 212], 0.0);
    assert_eq!(g.segment_data(1).len(), 16);
    assert!(
        g.segment_data(1).iter().all(|&v| v == 0.0),
        "non-NN segments zero-initialized"
    );
    assert_eq!(g.segment_data(4).len(), 4);
}

#[test]
fn genome_length_is_weights_plus_tail() {
    let g = Genome::with_nn_weights(vec![7u8; 3], 0);
    assert_eq!(g.len(), 47);
    assert_eq!(g.nn_weights(), &[7u8, 7, 7][..]);
    assert_eq!(g.segments()[6], (43, 4));
    assert!(g.data()[3..].iter().all(|&v| v == 0));
}

#[test]
fn empty_neural_segment_still_has_six_segments() {
    let g = Genome::with_nn_weights(Vec::<f32>::new(), 0.0);
    assert_eq!(g.len(), 44);
    assert_eq!(g.nn_weights().len(), 0);
    assert_eq!(g.segments()[0], (0, 0));
    assert_eq!(g.segments()[1], (0, 16));
    assert_eq!(g.segment_data(6).len(), 4);
}

#[test]
fn set_segment_data_overwrites_only_that_segment() {
    let mut g = Genome::with_nn_weights(vec![1.5f32; 212], 0.0);
    let seg: Vec<f32> = (0..16).map(|i| i as f32 * 0.25).collect();
    g.set_segment_data(1, &seg);
    assert_eq!(g.segment_data(1), &seg[..]);
    assert!(g.segment_data(0).iter().all(|&v| v == 1.5));
    assert!(g.segment_data(2).iter().all(|&v| v == 0.0));
    assert_eq!(g.len(), 256);
    assert_eq!(g.data()[212], 0.0);
    assert_eq!(g.data()[213], 0.25);
    assert_eq!(g.data()[227], 3.75);
    assert_eq!(g.data()[228], 0.0);
}

#[test]
fn set_replaces_one_value() {
    let mut g = Genome::with_nn_weights(vec![0.5f32; 16], 0.0);
    g.set(59, 2.0);
    assert_eq!(g.data()[59], 2.0);
    assert_eq!(g.data()[58], 0.0);
    assert_eq!(g.segment_data(6), &[0.0f32, 0.0, 0.0, 2.0][..]);
    assert_eq!(g.segments()[6], (56, 4));
}

#[test]
fn clone_copies_values_and_layout() {
    let mut a = Genome::with_nn_weights(vec![0.5f32; 16], 0.0);
    a.set(3, -1.0);
    let b = a.clone();
    assert_eq!(a.data(), b.data());
    assert_eq!(a.segments(), b.segments());
    a.set(3, 9.0);
    assert_eq!(b.data()[3], -1.0);
}

#[test]
fn child_controller_decodes_genome_of_212_weights() {
    let weights: Vec<f32> = (0..212).map(|i| i as f32).collect();
    let genome = Genome::with_nn_weights(weights.clone(), 0.0);
    let parent = NeuralNet::from_weights(&vec![9.0f32; 212]);
    let child = controller_for(&genome, &parent);
    assert_eq!(child.to_weight_vec(), weights);
}

#[test]
fn child_controller_falls_back_to_parent_weights() {
    let genome = Genome::with_nn_weights(vec![1.0f32; 10], 0.0);
    let parent_weights: Vec<f32> = (0..212).map(|i| (i as f32) * 0.5).collect();
    let parent = NeuralNet::from_weights(&parent_weights);
    let child = controller_for(&genome, &parent);
    assert_eq!(child.to_weight_vec(), parent_weights);
}
