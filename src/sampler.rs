use vstd::prelude::*;

verus! {

/// Frames at or before this index are never classified.
pub const WARMUP: u64 = 900;

/// Only every `STRIDE`-th frame after the warmup is classified.
pub const STRIDE: u64 = 30;

/// Whether the decoded frame with index `i` is eligible for classification.
pub open spec fn sampled(i: int) -> bool {
    i > WARMUP && i % (STRIDE as int) == 0
}

/// Decides whether the frame with index `frame_index` goes to the classifier.
pub fn should_sample(frame_index: u64) -> (r: bool)
    ensures
        r == sampled(frame_index as int),
        r == (frame_index > 900 && frame_index % 30 == 0),
{
    frame_index > WARMUP && frame_index % STRIDE == 0
}

} // verus!
