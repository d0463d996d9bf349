//! The weighing core of a four-channel load-cell scale: connecting to the
//! device, reading its channels with per-channel fault attribution, swapping
//! calibration without reopening hardware, pacing the samples of a median and
//! taking that median.

use vstd::prelude::*;

pub mod median;
pub mod sampling;
pub mod scale;

verus! {

/// A request that a remote client sends to a weighing service.
#[derive(Debug, Clone, Copy, PartialEq, Eq, Structural)]
pub enum ScaleCmd {
    GetWeight,
    GetMedianWeight { samples: usize },
    Shutdown,
}

} // verus!
