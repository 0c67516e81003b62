use vstd::prelude::*;

verus! {

/// The ways in which quantization or remapping can fail.
#[derive(Debug, Clone, Copy, PartialEq, Eq, Structural)]
pub enum LiqError {
    /// The progress observer asked to stop.
    Aborted,
    /// The best palette found is worse than the quality limit allows.
    QualityTooLow,
    /// A setting was given a value outside its domain.
    ValueOutOfRange,
    /// The caller's output buffer holds fewer bytes than the image has pixels.
    BufferTooSmall,
    /// An allocation failed.
    OutOfMemory,
}

} // verus!
