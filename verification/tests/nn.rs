use digital_life_core::nn::NeuralNet;
use digital_life_core::nn::HIDDEN_SIZE;
use digital_life_core::nn::INPUT_SIZE;
use digital_life_core::nn::OUTPUT_SIZE;
use digital_life_core::nn::WEIGHT_COUNT;

#[test]
fn weight_count_matches_topology() {
    assert_eq!(
        WEIGHT_COUNT,
        INPUT_SIZE * HIDDEN_SIZE + HIDDEN_SIZE + HIDDEN_SIZE * OUTPUT_SIZE + OUTPUT_SIZE
    );
    assert_eq!(WEIGHT_COUNT, 212);
}

#[test]
fn weights_decode_in_layout_order() {
    let weights: Vec<f32> = (0..212).map(|i| i as f32).collect();
    let net = NeuralNet::from_weights(&weights);
    assert_eq!(net.w_ih[0][0], 0.0);
    assert_eq!(net.w_ih[0][15], 15.0);
    assert_eq!(net.w_ih[1][0], 16.0);
    assert_eq!(net.w_ih[7][15], 127.0);
    assert_eq!(net.b_h[0], 128.0);
    assert_eq!(net.b_h[15], 143.0);
    assert_eq!(net.w_ho[0][0], 144.0);
    assert_eq!(net.w_ho[0][3], 147.0);
    assert_eq!(net.w_ho[1][0], 148.0);
    assert_eq!(net.w_ho[15][3], 207.0);
    assert_eq!(net.b_o[0], 208.0);
    assert_eq!(net.b_o[3], 211.0);
}

#[test]
fn single_one_at_position_136_lands_in_one_bias() {
    let mut weights = vec![0.0f32; 212];
    weights[136] = 1.0;
    let net = NeuralNet::from_weights(&weights);
    assert_eq!(net.b_h[8], 1.0);
    let mut ones = 0;
    for row in net.w_ih.iter() {
        ones += row.iter().filter(|&&w| w != 0.0).count();
    }
    ones += net.b_h.iter().filter(|&&w| w != 0.0).count();
    for row in net.w_ho.iter() {
        ones += row.iter().filter(|&&w| w != 0.0).count();
    }
    ones += net.b_o.iter().filter(|&&w| w != 0.0).count();
    assert_eq!(ones, 1);
}

#[test]
fn single_one_at_position_208_is_first_output_bias() {
    let mut weights = vec![0.0f32; 212];
    weights[208] = 1.0;
    let net = NeuralNet::from_weights(&weights);
    assert_eq!(net.b_o, [1.0, 0.0, 0.0, 0.0]);
    assert!(net.b_h.iter().all(|&w| w == 0.0));
}

#[test]
fn encode_after_decode_returns_the_weights() {
    let weights: Vec<f32> = (0..212).map(|i| (i as f32) * 0.01 - 1.0).collect();
    let net = NeuralNet::from_weights(&weights);
    assert_eq!(net.to_weight_vec(), weights);
}

#[test]
fn decode_ignores_values_beyond_212() {
    let weights: Vec<i32> = (0..300).collect();
    let net = NeuralNet::from_weights(&weights);
    let flat = net.to_weight_vec();
    assert_eq!(flat.len(), 212);
    assert_eq!(flat, (0..212).collect::<Vec<i32>>());
}
