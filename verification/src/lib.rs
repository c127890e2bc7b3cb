//! The decisions of an audio-driven haptic actuator.
//!
//! A live audio signal is filtered, reduced to one amplitude per frame and
//! sent on to an actuator at a bounded pace. This crate holds what is decided
//! on the way: which amplitudes are silenced and which are scaled
//! ([`conditioner`]), what intensity a batch commands ([`dispatch`]), what the
//! session with the control service does next ([`session`]), within which
//! bounds the parameters move ([`settings`]), and which audio device is
//! monitored ([`devices`]).
//!
//! Amplitudes are binary64 numbers carried as bit patterns ([`scalar`]): the
//! crate orders them and never computes with them. Filtering, multiplying
//! and averaging stay with the caller, as do all input and output.

pub mod conditioner;
pub mod devices;
pub mod dispatch;
pub mod scalar;
pub mod session;
pub mod settings;
