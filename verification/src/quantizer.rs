//! Launch quantization grids.
use vstd::prelude::*;

verus! {

/// Grid to which clip launches are quantized (4/4 assumed).
#[derive(Debug, Clone, Copy, PartialEq, Eq, Structural)]
pub enum QuantizationGrid {
    /// One bar.
    Bar,
    HalfNote,
    /// One beat.
    Quarter,
    Eighth,
    Sixteenth,
    /// Immediate launch.
    Immediate,
}

/// The quantizer of clip launches.
pub struct QuantizationEngine;

} // verus!
