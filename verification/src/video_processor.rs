//! Video frame processing: per-pixel grayscale transform, playback position
//! tracking, trim ranges, frame counting and thumbnail identifiers.
//!
//! A pixel buffer is a flat `Vec<u8>` of interleaved R, G, B, A channel
//! values, four per pixel. The frame rate is a rational number of frames per
//! second, held as numerator and denominator so that frame counting is exact.

use vstd::prelude::*;

use crate::decimal::{dec_rep, u32_to_decimal};

verus! {

/// One editing session's video geometry, frame rate and playback position.
#[derive(Debug, Clone, Copy, PartialEq, Eq, Structural)]
pub struct VideoProcessor {
    pub width: u32,
    pub height: u32,
    /// Frames per second, as the rational `frame_rate_num / frame_rate_den`.
    pub frame_rate_num: u32,
    pub frame_rate_den: u32,
    /// Index of the next frame to process; incremented by each processed frame.
    pub current_frame: u32,
}

/// Width and height of a session, as returned by [`VideoProcessor::get_dimensions`].
#[derive(Debug, Clone, Copy, PartialEq, Eq, Structural)]
pub struct Dimensions {
    pub width: u32,
    pub height: u32,
}

/// Requested trim bounds. Ordering of the two bounds is the caller's
/// responsibility and is deliberately not validated here.
#[derive(Debug, Clone, Copy, PartialEq, Eq, Structural)]
pub struct TrimRange {
    pub start_frame: u32,
    pub end_frame: u32,
}

/// Informational description of a video asset; not consumed by the core logic.
#[derive(Debug, Clone, Copy, PartialEq, Eq, Structural)]
pub struct VideoMetadata {
    pub width: u32,
    pub height: u32,
    pub duration_ms: u64,
    pub frame_rate_num: u32,
    pub frame_rate_den: u32,
}

/// Requested export parameters; passed through unvalidated.
#[derive(Debug, Clone, Copy, PartialEq, Eq, Structural)]
pub struct ExportConfig {
    pub width: u32,
    pub height: u32,
    pub frame_rate_num: u32,
    pub frame_rate_den: u32,
    /// Export quality, nominally 0 to 100.
    pub quality: u8,
}

/// Luma of one pixel by the fixed-weight formula
/// `0.299 R + 0.587 G + 0.114 B`, truncated toward zero.
pub open spec fn luma(r: u8, g: u8, b: u8) -> int {
    (299 * (r as int) + 587 * (g as int) + 114 * (b as int)) / 1000
}

/// The grayscale image of a pixel buffer: each pixel's R, G and B channels
/// are replaced by the pixel's luma, the alpha channel is kept.
pub open spec fn gray_pixels(p: Seq<u8>) -> Seq<u8> {
    Seq::new(
        p.len(),
        |i: int|
            if i % 4 == 3 {
                p[i]
            } else {
                luma(p[4 * (i / 4)], p[4 * (i / 4) + 1], p[4 * (i / 4) + 2]) as u8
            },
    )
}

/// The session state after one processed frame: the same geometry and frame
/// rate, with the playback position advanced by one.
pub open spec fn after_frame(p: VideoProcessor) -> VideoProcessor {
    VideoProcessor { current_frame: (p.current_frame + 1) as u32, ..p }
}

/// The session state after `n` processed frames.
pub open spec fn after_frames(p: VideoProcessor, n: nat) -> VideoProcessor
    decreases n,
{
    if n == 0 {
        p
    } else {
        after_frame(after_frames(p, (n - 1) as nat))
    }
}

/// Number of frames covered by `duration_ms` milliseconds at the frame rate
/// `num / den`: zero for a non-positive duration, else the rounded-up frame
/// count, saturated to the `u32` range.
pub open spec fn spec_frame_count(duration_ms: int, num: int, den: int) -> int {
    if duration_ms <= 0 {
        0
    } else {
        let c = (duration_ms * num + 1000 * den - 1) / (1000 * den);
        if c > u32::MAX {
            u32::MAX as int
        } else {
            c
        }
    }
}

impl VideoProcessor {
    /// Opens a session over the given geometry and rational frame rate, with
    /// the playback position at the first frame.
    pub fn new(width: u32, height: u32, frame_rate_num: u32, frame_rate_den: u32) -> (r:
        VideoProcessor)
        requires
            frame_rate_den > 0,
        ensures
            r == (VideoProcessor {
                width,
                height,
                frame_rate_num,
                frame_rate_den,
                current_frame: 0,
            }),
    {
        VideoProcessor { width, height, frame_rate_num, frame_rate_den, current_frame: 0 }
    }

    /// The session's width and height.
    pub fn get_dimensions(&self) -> (r: Dimensions)
        ensures
            r.width == self.width,
            r.height == self.height,
    {
        Dimensions { width: self.width, height: self.height }
    }

    /// Converts one frame to grayscale: every pixel's R, G and B channels
    /// become the pixel's luma, alpha passes through unchanged; a new buffer
    /// of the same length is returned and the input is not mutated. Advances
    /// the playback position by one frame.
    pub fn process_frame(&mut self, pixels: &Vec<u8>) -> (r: Vec<u8>)
        requires
            pixels@.len() % 4 == 0,
            old(self).current_frame < u32::MAX,
        ensures
            r@ == gray_pixels(pixels@),
            r@.len() == pixels@.len(),
            forall|j: int|
                0 <= j && 4 * j + 3 < pixels@.len() ==> #[trigger] r@[4 * j] == r@[4 * j + 1]
                    && r@[4 * j + 1] == r@[4 * j + 2] && r@[4 * j + 3] == pixels@[4 * j + 3],
            *final(self) == after_frame(*old(self)),
            final(self).current_frame == old(self).current_frame + 1,
    {
        let len: usize = pixels.len();
        let mut out: Vec<u8> = Vec::new();
        let mut i: usize = 0;
        while i < len
            invariant
                len == pixels@.len(),
                len % 4 == 0,
                i % 4 == 0,
                i <= len,
                out@.len() == i,
                forall|k: int| 0 <= k < i ==> out@[k] == gray_pixels(pixels@)[k],
            decreases len - i,
        {
            let r: u8 = pixels[i];
            let g: u8 = pixels[i + 1];
            let b: u8 = pixels[i + 2];
            let a: u8 = pixels[i + 3];
            let weighted: u32 = 299 * (r as u32) + 587 * (g as u32) + 114 * (b as u32);
            let gray: u8 = (weighted / 1000) as u8;
            proof {
                assert(weighted <= 255000);
                assert(weighted / 1000 <= 255) by {
                    vstd::arithmetic::div_mod::lemma_div_is_ordered(
                        weighted as int,
                        255000,
                        1000,
                    );
                }
                assert(gray as int == luma(pixels@[i as int], pixels@[i as int + 1], pixels@[i as int + 2]));
                assert((i as int) % 4 == 0 && (i as int + 1) % 4 == 1 && (i as int + 2) % 4 == 2
                    && (i as int + 3) % 4 == 3);
                assert(4 * ((i as int) / 4) == i as int);
                assert(4 * ((i as int + 1) / 4) == i as int);
                assert(4 * ((i as int + 2) / 4) == i as int);
            }
            out.push(gray);
            out.push(gray);
            out.push(gray);
            out.push(a);
            i = i + 4;
        }
        proof {
            assert(out@ =~= gray_pixels(pixels@));
            assert forall|j: int| 0 <= j && 4 * j + 3 < pixels@.len() implies #[trigger] out@[4 * j]
                == out@[4 * j + 1] && out@[4 * j + 1] == out@[4 * j + 2] && out@[4 * j + 3]
                == pixels@[4 * j + 3] by {
                assert((4 * j) % 4 == 0 && (4 * j + 1) % 4 == 1 && (4 * j + 2) % 4 == 2 && (4 * j
                    + 3) % 4 == 3);
                assert(4 * ((4 * j) / 4) == 4 * j);
                assert(4 * ((4 * j + 1) / 4) == 4 * j);
                assert(4 * ((4 * j + 2) / 4) == 4 * j);
            }
        }
        self.current_frame = self.current_frame + 1;
        out
    }

    /// Records the requested trim bounds, without validating their order.
    pub fn trim_video(&self, start_frame: u32, end_frame: u32) -> (r: TrimRange)
        ensures
            r.start_frame == start_frame,
            r.end_frame == end_frame,
    {
        TrimRange { start_frame, end_frame }
    }

    /// A deterministic placeholder identifier for a thumbnail of one frame;
    /// real thumbnail rendering is an external collaborator's seek-and-decode.
    pub fn generate_thumbnail(&self, width: u32, height: u32, frame_index: u32) -> (r: String)
        ensures
            r@ == "thumbnail-data-for-frame-"@ + dec_rep(frame_index as nat) + "-"@ + dec_rep(
                width as nat,
            ) + "x"@ + dec_rep(height as nat),
    {
        let mut r = String::from_str("thumbnail-data-for-frame-");
        let frame_s = u32_to_decimal(frame_index);
        r.append(frame_s.as_str());
        r.append("-");
        let width_s = u32_to_decimal(width);
        r.append(width_s.as_str());
        r.append("x");
        let height_s = u32_to_decimal(height);
        r.append(height_s.as_str());
        r
    }

    /// The number of frames covered by a duration in milliseconds: the
    /// duration times the frame rate, rounded up so that a partial trailing
    /// frame still counts, zero for non-positive durations.
    pub fn get_frame_count(&self, duration_ms: i64) -> (r: u32)
        requires
            self.frame_rate_den > 0,
        ensures
            r as int == spec_frame_count(
                duration_ms as int,
                self.frame_rate_num as int,
                self.frame_rate_den as int,
            ),
    {
        if duration_ms <= 0 {
            return 0;
        }
        let dm: u128 = duration_ms as u128;
        let num: u128 = self.frame_rate_num as u128;
        proof {
            assert((dm as int) * (num as int) <= 0x8000000000000000 * 0x100000000)
                by (nonlinear_arith)
                requires
                    dm <= 0x8000000000000000,
                    num <= 0x100000000,
            ;
        }
        let total: u128 = dm * num;
        let d: u128 = 1000 * (self.frame_rate_den as u128);
        let c: u128 = (total + d - 1) / d;
        if c > u32::MAX as u128 {
            u32::MAX
        } else {
            c as u32
        }
    }
}

/// Processing `n` frames in sequence advances the playback position by
/// exactly `n` and changes nothing else of the session.
pub proof fn lemma_frame_counter_monotonic(p: VideoProcessor, n: nat)
    requires
        p.current_frame + n <= u32::MAX,
    ensures
        after_frames(p, n).current_frame == p.current_frame + n,
        after_frames(p, n).width == p.width,
        after_frames(p, n).height == p.height,
        after_frames(p, n).frame_rate_num == p.frame_rate_num,
        after_frames(p, n).frame_rate_den == p.frame_rate_den,
    decreases n,
{
    if n > 0 {
        lemma_frame_counter_monotonic(p, (n - 1) as nat);
    }
}

} // verus!
