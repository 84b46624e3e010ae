//! Variable-length genome with seven labelled segments.

use vstd::prelude::*;

verus! {

/// Number of labelled segments in every genome.
pub const SEGMENT_COUNT: usize = 7;

/// Parameters of the metabolic network (segment 1).
pub const METABOLIC_SIZE: usize = 16;

/// Homeostasis parameters (segment 2).
pub const HOMEOSTASIS_SIZE: usize = 8;

/// Developmental program (segment 3).
pub const DEVELOPMENTAL_SIZE: usize = 8;

/// Reproduction parameters (segment 4).
pub const REPRODUCTION_SIZE: usize = 4;

/// Sensory parameters (segment 5).
pub const SENSORY_SIZE: usize = 4;

/// Evolution parameters (segment 6).
pub const EVOLUTION_SIZE: usize = 4;

/// Total length of the segments that follow the neural weights.
pub const TAIL_SIZE: usize = 44;

/// Length of segment `criterion` in a genome whose neural segment holds
/// `nn_len` values.
pub open spec fn segment_len(nn_len: nat, criterion: int) -> nat {
    if criterion == 0 {
        nn_len
    } else if criterion == 1 {
        16
    } else if criterion == 2 || criterion == 3 {
        8
    } else if 4 <= criterion <= 6 {
        4
    } else {
        0
    }
}

/// Offset of segment `criterion`: the sum of the lengths of the segments
/// before it.
pub open spec fn segment_start(nn_len: nat, criterion: int) -> nat
    decreases criterion,
{
    if criterion <= 0 {
        0
    } else {
        segment_start(nn_len, criterion - 1) + segment_len(nn_len, criterion - 1)
    }
}

/// The seven `(start, len)` pairs of a genome with `nn_len` neural weights.
pub open spec fn layout(nn_len: nat) -> Seq<(usize, usize)> {
    Seq::new(
        7,
        |i: int| (segment_start(nn_len, i) as usize, segment_len(nn_len, i) as usize),
    )
}

/// The offsets in closed form.
pub proof fn lemma_segment_starts(nn_len: nat)
    ensures
        segment_start(nn_len, 0) == 0,
        segment_start(nn_len, 1) == nn_len,
        segment_start(nn_len, 2) == nn_len + 16,
        segment_start(nn_len, 3) == nn_len + 24,
        segment_start(nn_len, 4) == nn_len + 32,
        segment_start(nn_len, 5) == nn_len + 36,
        segment_start(nn_len, 6) == nn_len + 40,
        segment_start(nn_len, 7) == nn_len + 44,
{
    reveal_with_fuel(segment_start, 8);
}

/// A dense parameter vector over a scalar type `T`, cut into seven segments.
#[derive(Debug)]
pub struct Genome<T> {
    data: Vec<T>,
    segments: [(usize, usize); 7],
}

impl<T> View for Genome<T> {
    type V = Seq<T>;

    closed spec fn view(&self) -> Seq<T> {
        self.data@
    }
}

impl<T: Copy> Genome<T> {
    /// The stored segment table.
    pub closed spec fn table(&self) -> Seq<(usize, usize)> {
        self.segments@
    }

    /// Number of neural weights, as implied by the total length.
    pub open spec fn nn_len(&self) -> nat {
        (self@.len() - 44) as nat
    }

    /// The genome is long enough for its six fixed segments and its segment
    /// table is the layout that its length implies.
    pub open spec fn wf(&self) -> bool {
        &&& self@.len() >= 44
        &&& self.table() == layout(self.nn_len())
    }

    /// The values of segment `criterion`.
    pub open spec fn segment(&self, criterion: int) -> Seq<T> {
        self@.subrange(
            segment_start(self.nn_len(), criterion) as int,
            segment_start(self.nn_len(), criterion + 1) as int,
        )
    }

    /// Builds a genome whose segment 0 is `nn_weights` and whose other
    /// segments hold `fill` throughout.
    pub fn with_nn_weights(nn_weights: Vec<T>, fill: T) -> (g: Self)
        requires
            nn_weights.len() + 44 <= usize::MAX,
        ensures
            g.wf(),
            g.nn_len() == nn_weights.len(),
            g@ == nn_weights@ + Seq::new(44, |i: int| fill),
    {
        let nn_len: usize = nn_weights.len();
        let mut data = nn_weights;
        let mut k: usize = 0;
        while k < TAIL_SIZE
            invariant
                k <= 44,
                nn_len + 44 <= usize::MAX,
                data@ == nn_weights@ + Seq::new(k as nat, |i: int| fill),
                nn_len == nn_weights.len(),
            decreases 44 - k,
        {
            data.push(fill);
            k = k + 1;
        }
        let sizes: [usize; 6] = [
            METABOLIC_SIZE,
            HOMEOSTASIS_SIZE,
            DEVELOPMENTAL_SIZE,
            REPRODUCTION_SIZE,
            SENSORY_SIZE,
            EVOLUTION_SIZE,
        ];
        let mut segments: [(usize, usize); 7] = [(0usize, 0usize); 7];
        segments[0] = (0, nn_len);
        let mut offset: usize = nn_len;
        let mut i: usize = 0;
        proof {
            lemma_segment_starts(nn_len as nat);
        }
        while i < 6
            invariant
                i <= 6,
                nn_len + 44 <= usize::MAX,
                sizes@ == seq![16usize, 8usize, 8usize, 4usize, 4usize, 4usize],
                offset == segment_start(nn_len as nat, i + 1),
                forall|j: int|
                    0 <= j <= i ==> #[trigger] segments@[j] == layout(nn_len as nat)[j],
            decreases 6 - i,
        {
            proof {
                lemma_segment_starts(nn_len as nat);
            }
            let size: usize = sizes[i];
            segments[i + 1] = (offset, size);
            offset = offset + size;
            i = i + 1;
        }
        assert(segments@ =~= layout(nn_len as nat));
        Genome { data, segments }
    }

    /// The neural weights: segment 0.
    pub fn nn_weights(&self) -> (r: &[T])
        requires
            self.wf(),
        ensures
            r@ == self.segment(0),
            r@ == self@.subrange(0, self.nn_len() as int),
    {
        proof {
            lemma_segment_starts(self.nn_len());
        }
        self.segment_data(0)
    }

    /// The values of segment `criterion`, which must be one of the seven.
    pub fn segment_data(&self, criterion: usize) -> (r: &[T])
        requires
            self.wf(),
            criterion < 7,
        ensures
            r@ == self.segment(criterion as int),
            r@.len() == segment_len(self.nn_len(), criterion as int),
    {
        proof {
            lemma_segment_starts(self.nn_len());
            assert(self.data@.len() == self.data.len());
        }
        let (start, len) = self.segments[criterion];
        &self.data[start..start + len]
    }

    /// Overwrites segment `criterion` with `values`, which must have that
    /// segment's length. Every other segment keeps its values.
    pub fn set_segment_data(&mut self, criterion: usize, values: &[T])
        requires
            old(self).wf(),
            criterion < 7,
            values@.len() == segment_len(old(self).nn_len(), criterion as int),
        ensures
            final(self).wf(),
            final(self)@.len() == old(self)@.len(),
            final(self).segment(criterion as int) == values@,
            forall|i: int|
                0 <= i < 7 && i != criterion ==> #[trigger] final(self).segment(i)
                    == old(self).segment(i),
    {
        proof {
            lemma_segment_starts(self.nn_len());
        }
        let total: usize = self.data.len();
        let (start, len) = self.segments[criterion];
        let mut k: usize = 0;
        while k < len
            invariant
                k <= len,
                len == values@.len(),
                start + len <= total,
                total == self.data@.len(),
                start == segment_start(old(self).nn_len(), criterion as int),
                start + len == segment_start(old(self).nn_len(), criterion + 1),
                self.data@.len() == old(self).data@.len(),
                self.segments == old(self).segments,
                forall|j: int| 0 <= j < k ==> #[trigger] self.data@[start + j] == values@[j],
                forall|j: int|
                    0 <= j < self.data@.len() && !(start <= j < start + k)
                        ==> #[trigger] self.data@[j] == old(self).data@[j],
            decreases len - k,
        {
            let v: T = values[k];
            self.data[start + k] = v;
            k = k + 1;
        }
        proof {
            lemma_segment_starts(self.nn_len());
        }
        assert forall|j: int| 0 <= j < len implies #[trigger] self.segment(criterion as int)[j]
            == values@[j] by {
            assert(self.data@[start + j] == values@[j]);
        }
    }

    /// Every value of the genome, segment after segment.
    pub fn data(&self) -> (r: &[T])
        ensures
            r@ == self@,
    {
        self.data.as_slice()
    }

    /// The `(start, len)` pair of each segment.
    pub fn segments(&self) -> (r: &[(usize, usize); 7])
        ensures
            r@ == self.table(),
            self.wf() ==> r@ == layout(self.nn_len()),
    {
        &self.segments
    }

    /// Number of values in the genome.
    pub fn len(&self) -> (n: usize)
        ensures
            n == self@.len(),
    {
        self.data.len()
    }

    /// Replaces the value at `index`; the layout does not change.
    pub fn set(&mut self, index: usize, value: T)
        requires
            index < old(self)@.len(),
        ensures
            final(self)@ == old(self)@.update(index as int, value),
            final(self).table() == old(self).table(),
            old(self).wf() ==> final(self).wf(),
    {
        self.data[index] = value;
    }
}

impl<T: Copy> Clone for Genome<T> {
    /// The copy has the same values and the same segment table.
    fn clone(&self) -> (g: Self)
        ensures
            g@ == self@,
            g.table() == self.table(),
            self.wf() ==> g.wf(),
    {
        let mut data: Vec<T> = Vec::with_capacity(self.data.len());
        let mut k: usize = 0;
        while k < self.data.len()
            invariant
                k <= self.data@.len(),
                data@ == self.data@.subrange(0, k as int),
            decreases self.data@.len() - k,
        {
            data.push(self.data[k]);
            k = k + 1;
        }
        Genome { data, segments: self.segments }
    }
}

} // verus!
