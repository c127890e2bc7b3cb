//! From the mean of a batch to the intensity that is sent.

use crate::scalar::{Scalar, ONE_BITS};
use vstd::prelude::*;

verus! {

/// The most samples that one batch holds.
pub const BATCH_LIMIT: usize = 16;

/// The smaller of `mean` and one. A mean that is a NaN gives one.
pub open spec fn clamped(mean: Scalar) -> Scalar {
    if mean.lt(Scalar { bits: ONE_BITS }) {
        mean
    } else {
        Scalar { bits: ONE_BITS }
    }
}

/// The intensity to command for a batch with the given mean: the mean
/// itself, capped at one.
pub fn command_intensity(mean: Scalar) -> (intensity: Scalar)
    ensures
        intensity == clamped(mean),
        !intensity.is_nan(),
        intensity.rank() <= ONE_BITS,
        mean.is_nan() || mean.rank() >= 0 ==> intensity.in_unit_interval(),
{
    if mean.less_than(Scalar::one()) {
        mean
    } else {
        Scalar::one()
    }
}

/// The intensity commanded for a mean that is zero or more is the smaller
/// of the mean and one, and so lies between zero and one.
pub proof fn command_is_mean_capped_at_one(mean: Scalar)
    requires
        mean.is_non_negative(),
    ensures
        clamped(mean) == mean || clamped(mean) == (Scalar { bits: ONE_BITS }),
        clamped(mean).rank() == if mean.rank() <= ONE_BITS {
            mean.rank()
        } else {
            ONE_BITS as int
        },
        clamped(mean).in_unit_interval(),
{
}

} // verus!
