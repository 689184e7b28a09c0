//! Audio format conversion utilities.
use vstd::prelude::*;

verus! {

/// Audio format conversion utilities.
#[derive(Debug, Clone, Copy)]
pub struct AudioConverter;

impl AudioConverter {
    /// Interleave non-interleaved channel buffers.
    ///
    /// Given `buffers` where each element is a channel's samples, produce a
    /// single interleaved buffer of length `num_channels * num_samples`: sample
    /// `i` of channel `c` lands at `i * num_channels + c`.
    ///
    /// Example: buffers = [[L0, L1, L2], [R0, R1, R2]] → [L0, R0, L1, R1, L2, R2]
    pub fn interleave<T: Copy>(buffers: &[&[T]], num_samples: usize) -> (out: Vec<T>)
        requires
            buffers@.len() * num_samples <= usize::MAX,
            forall|c: int| 0 <= c < buffers@.len() ==> num_samples <= (#[trigger] buffers@[c])@.len(),
        ensures
            out@.len() == buffers@.len() * num_samples,
            forall|i: int, c: int|
                0 <= i < num_samples && 0 <= c < buffers@.len() ==> #[trigger] out@[i * buffers@.len()
                    + c] == buffers@[c]@[i],
    {
        let num_channels = buffers.len();
        let mut output: Vec<T> = Vec::new();
        let mut i: usize = 0;
        while i < num_samples
            invariant
                i <= num_samples,
                num_channels == buffers@.len(),
                num_channels * num_samples <= usize::MAX,
                forall|c: int| 0 <= c < num_channels ==> num_samples <= (#[trigger] buffers@[c])@.len(),
                output@.len() == i * num_channels,
                forall|k: int, c: int|
                    0 <= k < i && 0 <= c < num_channels ==> #[trigger] output@[k * num_channels + c]
                        == buffers@[c]@[k],
            decreases num_samples - i,
        {
            let ghost before = output@;
            let mut c: usize = 0;
            while c < num_channels
                invariant
                    i < num_samples,
                    c <= num_channels,
                    num_channels == buffers@.len(),
                    forall|ch: int| 0 <= ch < num_channels ==> num_samples <= (#[trigger] buffers@[ch])@.len(),
                    output@.len() == i * num_channels + c,
                    output@.subrange(0, i * num_channels) == before.subrange(0, i * num_channels),
                    before.len() == i * num_channels,
                    forall|ch: int| 0 <= ch < c ==> #[trigger] output@[i * num_channels + ch] == buffers@[ch]@[i as int],
                decreases num_channels - c,
            {
                let sample = buffers[c][i];
                output.push(sample);
                proof {
                    assert(output@.subrange(0, i * num_channels) =~= before.subrange(0, i * num_channels));
                }
                c = c + 1;
            }
            proof {
                assert((i + 1) * num_channels == i * num_channels + num_channels) by (nonlinear_arith);
                assert forall|k: int, ch: int|
                    0 <= k < i + 1 && 0 <= ch < num_channels implies #[trigger] output@[k * num_channels + ch]
                        == buffers@[ch]@[k] by {
                    if k < i {
                        assert(k * num_channels + ch < i * num_channels) by (nonlinear_arith)
                            requires k < i, 0 <= ch < num_channels;
                        assert(0 <= k * num_channels) by (nonlinear_arith) requires 0 <= k, 0 <= num_channels;
                        assert(output@[k * num_channels + ch] == output@.subrange(0, i * num_channels)[k * num_channels + ch]);
                        assert(before[k * num_channels + ch] == before.subrange(0, i * num_channels)[k * num_channels + ch]);
                    } else {
                        assert(k == i);
                    }
                }
            }
            i = i + 1;
        }
        proof {
            vstd::arithmetic::mul::lemma_mul_is_commutative(num_samples as int, num_channels as int);
        }
        output
    }
}

} // verus!
