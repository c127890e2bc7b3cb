//! The tunable parameters: gain, gate threshold and dispatch interval.

use crate::scalar::Scalar;
use vstd::prelude::*;

verus! {

/// Pattern of the default gain, `10.0`.
pub const DEFAULT_INTENSITY_BITS: u64 = 0x4024_0000_0000_0000;

/// Pattern of the default gate threshold, `0.005`.
pub const DEFAULT_THRESHOLD_BITS: u64 = 0x3F74_7AE1_47AE_147B;

/// The default pause between two commands, in milliseconds.
pub const DEFAULT_INTERVAL_MS: u64 = 35;

/// What a [`Settings`] value holds.
pub ghost struct SettingsView {
    /// The gain applied to an amplitude that is let through.
    pub intensity: Scalar,
    /// The magnitude below which an amplitude counts as silence.
    pub threshold: Scalar,
    /// The pause after each command, in milliseconds.
    pub interval_ms: u64,
}

impl SettingsView {
    /// The gain is zero or more, the threshold lies between zero and one,
    /// and the interval is at least a millisecond.
    pub open spec fn wf(self) -> bool {
        &&& self.intensity.is_non_negative()
        &&& self.threshold.in_unit_interval()
        &&& self.interval_ms >= 1
    }
}

/// Why a parameter was refused.
#[derive(Clone, Copy, Debug, PartialEq, Eq, Structural)]
pub enum SettingsError {
    /// The gain is negative or a NaN.
    Intensity,
    /// The threshold is outside the interval from zero to one.
    Threshold,
    /// The interval is zero.
    Interval,
}

/// The tunable parameters. Every value of this type is well formed.
#[derive(Clone, Copy, Debug)]
pub struct Settings {
    intensity: Scalar,
    threshold: Scalar,
    interval_ms: u64,
}

impl View for Settings {
    type V = SettingsView;

    closed spec fn view(&self) -> SettingsView {
        SettingsView {
            intensity: self.intensity,
            threshold: self.threshold,
            interval_ms: self.interval_ms,
        }
    }
}

impl Settings {
    #[verifier::type_invariant]
    spec fn inv(self) -> bool {
        self@.wf()
    }

    /// The first parameter that is out of range, if there is one.
    pub open spec fn fault(intensity: Scalar, threshold: Scalar, interval_ms: u64) -> Option<
        SettingsError,
    > {
        if !intensity.is_non_negative() {
            Some(SettingsError::Intensity)
        } else if !threshold.in_unit_interval() {
            Some(SettingsError::Threshold)
        } else if interval_ms < 1 {
            Some(SettingsError::Interval)
        } else {
            None
        }
    }

    /// Settings with the given parameters, or the first of them that is out
    /// of range.
    pub fn new(intensity: Scalar, threshold: Scalar, interval_ms: u64) -> (r: Result<
        Settings,
        SettingsError,
    >)
        ensures
            match Self::fault(intensity, threshold, interval_ms) {
                Some(e) => r == Err::<Settings, SettingsError>(e),
                None => r is Ok && r->Ok_0@ == (SettingsView { intensity, threshold, interval_ms }),
            },
            r is Ok ==> r->Ok_0@.wf(),
    {
        if !intensity.at_least_zero() {
            Err(SettingsError::Intensity)
        } else if !threshold.is_unit() {
            Err(SettingsError::Threshold)
        } else if interval_ms < 1 {
            Err(SettingsError::Interval)
        } else {
            Ok(Settings { intensity, threshold, interval_ms })
        }
    }

    /// Sets the gain, unless it is negative or a NaN.
    pub fn set_intensity(&mut self, intensity: Scalar) -> (r: Result<(), SettingsError>)
        ensures
            final(self)@.wf(),
            intensity.is_non_negative() ==> r is Ok && final(self)@ == (SettingsView {
                intensity,
                ..old(self)@
            }),
            !intensity.is_non_negative() ==> r == Err::<(), SettingsError>(
                SettingsError::Intensity,
            ) && final(self)@ == old(self)@,
    {
        proof {
            use_type_invariant(&*self);
        }
        if intensity.at_least_zero() {
            self.intensity = intensity;
            Ok(())
        } else {
            Err(SettingsError::Intensity)
        }
    }

    /// Sets the threshold, unless it is outside the interval from zero
    /// to one.
    pub fn set_threshold(&mut self, threshold: Scalar) -> (r: Result<(), SettingsError>)
        ensures
            final(self)@.wf(),
            threshold.in_unit_interval() ==> r is Ok && final(self)@ == (SettingsView {
                threshold,
                ..old(self)@
            }),
            !threshold.in_unit_interval() ==> r == Err::<(), SettingsError>(
                SettingsError::Threshold,
            ) && final(self)@ == old(self)@,
    {
        proof {
            use_type_invariant(&*self);
        }
        if threshold.is_unit() {
            self.threshold = threshold;
            Ok(())
        } else {
            Err(SettingsError::Threshold)
        }
    }

    /// Sets the pause after each command, unless it is zero.
    pub fn set_interval_ms(&mut self, interval_ms: u64) -> (r: Result<(), SettingsError>)
        ensures
            final(self)@.wf(),
            interval_ms >= 1 ==> r is Ok && final(self)@ == (SettingsView {
                interval_ms,
                ..old(self)@
            }),
            interval_ms < 1 ==> r == Err::<(), SettingsError>(SettingsError::Interval)
                && final(self)@ == old(self)@,
    {
        proof {
            use_type_invariant(&*self);
        }
        if interval_ms >= 1 {
            self.interval_ms = interval_ms;
            Ok(())
        } else {
            Err(SettingsError::Interval)
        }
    }

    /// The gain.
    pub fn intensity(&self) -> (v: Scalar)
        ensures
            v == self@.intensity,
            v.is_non_negative(),
    {
        proof {
            use_type_invariant(self);
        }
        self.intensity
    }

    /// The threshold of the noise gate.
    pub fn threshold(&self) -> (v: Scalar)
        ensures
            v == self@.threshold,
            v.in_unit_interval(),
    {
        proof {
            use_type_invariant(self);
        }
        self.threshold
    }

    /// The pause after each command, in milliseconds.
    pub fn interval_ms(&self) -> (v: u64)
        ensures
            v == self@.interval_ms,
            v >= 1,
    {
        proof {
            use_type_invariant(self);
        }
        self.interval_ms
    }
}

impl Default for Settings {
    /// A gain of ten, a threshold of five thousandths and 35 milliseconds
    /// between commands.
    fn default() -> (s: Settings)
        ensures
            s@ == (SettingsView {
                intensity: Scalar { bits: DEFAULT_INTENSITY_BITS },
                threshold: Scalar { bits: DEFAULT_THRESHOLD_BITS },
                interval_ms: DEFAULT_INTERVAL_MS,
            }),
            s@.wf(),
    {
        Settings {
            intensity: Scalar { bits: DEFAULT_INTENSITY_BITS },
            threshold: Scalar { bits: DEFAULT_THRESHOLD_BITS },
            interval_ms: DEFAULT_INTERVAL_MS,
        }
    }
}

} // verus!
