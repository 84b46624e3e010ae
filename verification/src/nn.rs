//! Weight layout of the fixed-topology neural controller.
//!
//! The controller has 8 inputs, 16 hidden units and 4 outputs. Its 212
//! weights are stored flat in the order: input-to-hidden matrix (row-major),
//! hidden biases, hidden-to-output matrix (row-major), output biases.

use vstd::prelude::*;

verus! {

/// Number of inputs.
pub const INPUT_SIZE: usize = 8;

/// Number of hidden units.
pub const HIDDEN_SIZE: usize = 16;

/// Number of outputs.
pub const OUTPUT_SIZE: usize = 4;

/// Number of weights: `8 * 16 + 16 + 16 * 4 + 4`.
pub const WEIGHT_COUNT: usize = 212;

/// The controller's weights over a scalar type `T`.
#[derive(Debug)]
pub struct NeuralNet<T> {
    /// Input-to-hidden matrix, one row per input.
    pub w_ih: [[T; 16]; 8],
    /// Hidden biases.
    pub b_h: [T; 16],
    /// Hidden-to-output matrix, one row per hidden unit.
    pub w_ho: [[T; 4]; 16],
    /// Output biases.
    pub b_o: [T; 4],
}

impl<T: Copy> NeuralNet<T> {
    /// The weight that stands at position `k` of the flat encoding.
    pub open spec fn weight_at(&self, k: int) -> T {
        if k < 128 {
            self.w_ih@[k / 16]@[k % 16]
        } else if k < 144 {
            self.b_h@[k - 128]
        } else if k < 208 {
            self.w_ho@[(k - 144) / 4]@[(k - 144) % 4]
        } else {
            self.b_o@[k - 208]
        }
    }

    /// The flat encoding: all 212 weights in layout order.
    pub open spec fn weights(&self) -> Seq<T> {
        Seq::new(212, |k: int| self.weight_at(k))
    }

    /// Decodes a controller from the first 212 values of `weights`.
    pub fn from_weights(weights: &[T]) -> (net: Self)
        requires
            weights@.len() >= 212,
        ensures
            net.weights() == weights@.subrange(0, 212),
    {
        let seed: T = weights[0];
        let mut w_ih: [[T; 16]; 8] = [[seed; 16]; 8];
        let mut next: usize = 0;
        let mut i: usize = 0;
        while i < 8
            invariant
                i <= 8,
                next == i * 16,
                weights@.len() >= 212,
                forall|a: int, b: int|
                    0 <= a < i && 0 <= b < 16 ==> #[trigger] w_ih@[a]@[b] == weights@[a * 16 + b],
            decreases 8 - i,
        {
            let mut row: [T; 16] = [seed; 16];
            let mut j: usize = 0;
            while j < 16
                invariant
                    j <= 16,
                    i < 8,
                    next == i * 16 + j,
                    weights@.len() >= 212,
                    forall|b: int| 0 <= b < j ==> #[trigger] row@[b] == weights@[i * 16 + b],
                decreases 16 - j,
            {
                row[j] = weights[next];
                next = next + 1;
                j = j + 1;
            }
            w_ih[i] = row;
            i = i + 1;
        }
        let mut b_h: [T; 16] = [seed; 16];
        let mut j: usize = 0;
        while j < 16
            invariant
                j <= 16,
                next == 128 + j,
                weights@.len() >= 212,
                forall|b: int| 0 <= b < j ==> #[trigger] b_h@[b] == weights@[128 + b],
            decreases 16 - j,
        {
            b_h[j] = weights[next];
            next = next + 1;
            j = j + 1;
        }
        let mut w_ho: [[T; 4]; 16] = [[seed; 4]; 16];
        let mut i: usize = 0;
        while i < 16
            invariant
                i <= 16,
                next == 144 + i * 4,
                weights@.len() >= 212,
                forall|a: int, b: int|
                    0 <= a < i && 0 <= b < 4 ==> #[trigger] w_ho@[a]@[b] == weights@[144 + a * 4
                        + b],
            decreases 16 - i,
        {
            let mut row: [T; 4] = [seed; 4];
            let mut j: usize = 0;
            while j < 4
                invariant
                    j <= 4,
                    i < 16,
                    next == 144 + i * 4 + j,
                    weights@.len() >= 212,
                    forall|b: int| 0 <= b < j ==> #[trigger] row@[b] == weights@[144 + i * 4 + b],
                decreases 4 - j,
            {
                row[j] = weights[next];
                next = next + 1;
                j = j + 1;
            }
            w_ho[i] = row;
            i = i + 1;
        }
        let mut b_o: [T; 4] = [seed; 4];
        let mut j: usize = 0;
        while j < 4
            invariant
                j <= 4,
                next == 208 + j,
                weights@.len() >= 212,
                forall|b: int| 0 <= b < j ==> #[trigger] b_o@[b] == weights@[208 + b],
            decreases 4 - j,
        {
            b_o[j] = weights[next];
            next = next + 1;
            j = j + 1;
        }
        let net = NeuralNet { w_ih, b_h, w_ho, b_o };
        net
    }

    /// Encodes the controller as its 212 weights in layout order.
    pub fn to_weight_vec(&self) -> (v: Vec<T>)
        ensures
            v@ == self.weights(),
    {
        let mut v: Vec<T> = Vec::with_capacity(WEIGHT_COUNT);
        let mut i: usize = 0;
        while i < 8
            invariant
                i <= 8,
                v@.len() == i * 16,
                forall|k: int| 0 <= k < v@.len() ==> #[trigger] v@[k] == self.weight_at(k),
            decreases 8 - i,
        {
            let mut j: usize = 0;
            while j < 16
                invariant
                    j <= 16,
                    i < 8,
                    v@.len() == i * 16 + j,
                    forall|k: int| 0 <= k < v@.len() ==> #[trigger] v@[k] == self.weight_at(k),
                decreases 16 - j,
            {
                v.push(self.w_ih[i][j]);
                j = j + 1;
            }
            i = i + 1;
        }
        let mut j: usize = 0;
        while j < 16
            invariant
                j <= 16,
                v@.len() == 128 + j,
                forall|k: int| 0 <= k < v@.len() ==> #[trigger] v@[k] == self.weight_at(k),
            decreases 16 - j,
        {
            v.push(self.b_h[j]);
            j = j + 1;
        }
        let mut i: usize = 0;
        while i < 16
            invariant
                i <= 16,
                v@.len() == 144 + i * 4,
                forall|k: int| 0 <= k < v@.len() ==> #[trigger] v@[k] == self.weight_at(k),
            decreases 16 - i,
        {
            let mut j: usize = 0;
            while j < 4
                invariant
                    j <= 4,
                    i < 16,
                    v@.len() == 144 + i * 4 + j,
                    forall|k: int| 0 <= k < v@.len() ==> #[trigger] v@[k] == self.weight_at(k),
                decreases 4 - j,
            {
                v.push(self.w_ho[i][j]);
                j = j + 1;
            }
            i = i + 1;
        }
        let mut j: usize = 0;
        while j < 4
            invariant
                j <= 4,
                v@.len() == 208 + j,
                forall|k: int| 0 <= k < v@.len() ==> #[trigger] v@[k] == self.weight_at(k),
            decreases 4 - j,
        {
            v.push(self.b_o[j]);
            j = j + 1;
        }
        v
    }
}

impl<T: Copy> Clone for NeuralNet<T> {
    /// The copy holds the same weights.
    fn clone(&self) -> (net: Self)
        ensures
            net == *self,
    {
        NeuralNet { w_ih: self.w_ih, b_h: self.b_h, w_ho: self.w_ho, b_o: self.b_o }
    }
}

/// Decoding a flat vector of exactly 212 weights and encoding the controller
/// again gives back the vector that was decoded.
pub proof fn lemma_decode_then_encode<T: Copy>(weights: Seq<T>, net: NeuralNet<T>)
    requires
        weights.len() == 212,
        net.weights() == weights.subrange(0, 212),
    ensures
        net.weights() == weights,
{
}

/// Two controllers with the same flat encoding hold the same weight in every
/// position of every matrix and bias vector.
pub proof fn lemma_encoding_is_injective<T: Copy>(a: NeuralNet<T>, b: NeuralNet<T>)
    requires
        a.weights() == b.weights(),
    ensures
        forall|i: int, j: int| 0 <= i < 8 && 0 <= j < 16 ==> a.w_ih@[i]@[j] == b.w_ih@[i]@[j],
        forall|j: int| 0 <= j < 16 ==> a.b_h@[j] == b.b_h@[j],
        forall|i: int, j: int| 0 <= i < 16 && 0 <= j < 4 ==> a.w_ho@[i]@[j] == b.w_ho@[i]@[j],
        forall|j: int| 0 <= j < 4 ==> a.b_o@[j] == b.b_o@[j],
{
    assert forall|i: int, j: int| 0 <= i < 8 && 0 <= j < 16 implies a.w_ih@[i]@[j]
        == b.w_ih@[i]@[j] by {
        let k = i * 16 + j;
        assert(a.weights()[k] == a.weight_at(k));
    }
    assert forall|j: int| 0 <= j < 16 implies a.b_h@[j] == b.b_h@[j] by {
        let k = 128 + j;
        assert(a.weights()[k] == a.weight_at(k));
    }
    assert forall|i: int, j: int| 0 <= i < 16 && 0 <= j < 4 implies a.w_ho@[i]@[j]
        == b.w_ho@[i]@[j] by {
        let k = 144 + i * 4 + j;
        assert(a.weights()[k] == a.weight_at(k));
    }
    assert forall|j: int| 0 <= j < 4 implies a.b_o@[j] == b.b_o@[j] by {
        let k = 208 + j;
        assert(a.weights()[k] == a.weight_at(k));
    }
}

} // verus!
