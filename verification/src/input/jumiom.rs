//! Jumiom PSD input: acquisition modes, configuration and calibration.

pub mod decode;

use vstd::prelude::*;

verus! {

/// Acquisition mode for the Jumiom PSD (selects both the hardware mode and
/// the raw word-stream decoding).
#[derive(Debug, Clone, Copy, PartialEq, Eq, Structural)]
pub enum JumiomMode {
    Tof1,
    Raw,
    Ramp,
}

/// Hardware calibration values for the Jumiom PSD, pushed at acquisition
/// start.
#[derive(Debug, Clone, Copy, PartialEq, Eq)]
pub struct JumiomCalibration {
    /// Upper/lower/gate ADC thresholds.
    pub thresholds: [i32; 3],
    /// Gain potentiometer setting per ADC channel.
    pub poti: [i32; 4],
    /// DAC offset per ADC channel, single-ended.
    pub dac1: [i32; 4],
    /// DAC offset per ADC channel, differential.
    pub dac2: [i32; 4],
    /// Pileup rejection count.
    pub pileup: i32,
    /// Monitor timer reset delay [us].
    pub monitor_delay: i32,
    /// Chopper timer reset delay [us].
    pub chopper_delay: i32,
}

/// Configuration of a Jumiom input.
#[derive(Debug, Clone, Copy, PartialEq, Eq)]
pub struct JumiomConfig {
    /// Device number, i.e. `/dev/jumpsd_d<device>`.
    pub device: i32,
    pub mode: JumiomMode,
    /// Calibration to push at acquisition start; if unset, the hardware's
    /// current settings stay untouched.
    pub calibration: Option<JumiomCalibration>,
}

} // verus!
