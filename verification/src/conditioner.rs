//! Noise gate and gain: they turn a filtered frame into one sample for the
//! actuator and a frame for display.
//!
//! The conditioner decides; it does not multiply. Where an amplitude is let
//! through, the result names the two factors of the product and the caller
//! carries the multiplication out.

use crate::scalar::Scalar;
use crate::settings::{Settings, SettingsView};
use vstd::prelude::*;

verus! {

/// What becomes of one amplitude.
#[derive(Clone, Copy, Debug, PartialEq, Eq, Structural)]
pub enum Conditioned {
    /// The amplitude is below the threshold: the output is exactly zero.
    Silent,
    /// The amplitude passes: the output is `value` times `gain`.
    Scaled { value: Scalar, gain: Scalar },
}

/// A conditioned frame.
#[derive(Debug)]
pub struct Conditioning {
    /// The one sample that goes to the actuator.
    pub sample: Conditioned,
    /// The frame for display, element by element.
    pub display: Vec<Conditioned>,
}

/// The rule of noise gate and gain: silence where the magnitude of `value` is below
/// the threshold, else `value` scaled by the gain.
pub open spec fn gated(value: Scalar, settings: SettingsView) -> Conditioned {
    if value.abs().lt(settings.threshold) {
        Conditioned::Silent
    } else {
        Conditioned::Scaled { value, gain: settings.intensity }
    }
}

/// The amplitude that stands for a frame: its last one, or zero for a frame
/// that holds none.
pub open spec fn representative(frame: Seq<Scalar>) -> Scalar {
    if frame.len() == 0 {
        Scalar { bits: 0 }
    } else {
        frame.last()
    }
}

/// Applies the rule of noise gate and gain to one amplitude.
pub fn gate(value: Scalar, settings: &Settings) -> (out: Conditioned)
    ensures
        out == gated(value, settings@),
        value.abs().lt(settings@.threshold) ==> out == Conditioned::Silent,
        !value.abs().lt(settings@.threshold) ==> out == (Conditioned::Scaled {
            value,
            gain: settings@.intensity,
        }),
{
    if value.absolute().less_than(settings.threshold()) {
        Conditioned::Silent
    } else {
        Conditioned::Scaled { value, gain: settings.intensity() }
    }
}

/// Conditions a filtered frame. The sample for the actuator is the magnitude
/// of the frame's last amplitude under the rule of [`gated`]; the frame for
/// display has every amplitude of the frame under the same rule, in place.
pub fn condition(frame: &Vec<Scalar>, settings: &Settings) -> (out: Conditioning)
    ensures
        out.sample == gated(representative(frame@).abs(), settings@),
        out.display@.len() == frame@.len(),
        forall|i: int|
            0 <= i < frame@.len() ==> #[trigger] out.display@[i] == gated(frame@[i], settings@),
{
    let n: usize = frame.len();
    let last: Scalar = if n == 0 {
        Scalar::zero()
    } else {
        frame[n - 1]
    };
    let sample = gate(last.absolute(), settings);
    let mut display: Vec<Conditioned> = Vec::with_capacity(n);
    let mut i: usize = 0;
    while i < n
        invariant
            n == frame@.len(),
            i <= n,
            display@.len() == i,
            forall|k: int| 0 <= k < i ==> #[trigger] display@[k] == gated(frame@[k], settings@),
        decreases n - i,
    {
        display.push(gate(frame[i], settings));
        i += 1;
    }
    Conditioning { sample, display }
}

/// An amplitude whose magnitude is below the threshold comes out as exactly
/// zero, whatever the gain.
pub proof fn below_threshold_is_silent(value: Scalar, settings: SettingsView)
    requires
        settings.wf(),
        value.abs().lt(settings.threshold),
    ensures
        gated(value, settings) == Conditioned::Silent,
{
}

/// An amplitude whose magnitude is at or above the threshold comes out as
/// itself times the gain. For the sample that goes to the actuator the
/// amplitude is a magnitude, so both factors are zero or more.
pub proof fn at_threshold_is_scaled(value: Scalar, settings: SettingsView)
    requires
        settings.wf(),
        !value.is_nan(),
        value.abs().rank() >= settings.threshold.rank(),
    ensures
        !value.abs().lt(settings.threshold),
        gated(value, settings) == (Conditioned::Scaled { value, gain: settings.intensity }),
        gated(value.abs(), settings) == (Conditioned::Scaled {
            value: value.abs(),
            gain: settings.intensity,
        }),
        value.abs().is_non_negative() && settings.intensity.is_non_negative(),
{
}

} // verus!
