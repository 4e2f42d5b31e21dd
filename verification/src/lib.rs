//! Verified processing core of a browser-embeddable media-editing toolkit.
//!
//! The library divides into three parts: a video frame processor that
//! applies a per-pixel grayscale transform and tracks playback position, an
//! audio signal processor (waveform extraction, peak normalization, multi-track
//! mixing) over fixed-point sample buffers, and a pipeline driver state machine
//! that governs the demux/decode/flush protocol of an external codec.
//!
//! Audio samples are fixed-point: the integer [`sample_math::SAMPLE_UNIT`]
//! stands for the real amplitude 1.0, so every numeric claim is exact.

use vstd::prelude::*;

pub mod audio_processor;
pub mod decimal;
pub mod pipeline;
pub mod sample_math;
pub mod video_processor;

verus! {

/// Greets a caller of the toolkit by name.
pub fn greet(name: &str) -> (r: String)
    ensures
        r@ == "Hello, "@ + name@ + "! WebAssembly Video Editor is ready."@,
{
    let mut r = String::from_str("Hello, ");
    r.append(name);
    r.append("! WebAssembly Video Editor is ready.");
    r
}

} // verus!
