//! Audio signal processing: waveform extraction, peak normalization and
//! multi-track mixing with clip prevention.
//!
//! Every operation is a pure function of its inputs: a new buffer is returned
//! and no argument is mutated. Samples are fixed-point `i32` values, with
//! [`SAMPLE_UNIT`] standing for the real amplitude 1.0 (see
//! [`crate::sample_math`]).

use vstd::prelude::*;

use crate::sample_math::{
    abs_val, lemma_peak_is_attained, lemma_peak_is_bound, lemma_peak_le_bound, lemma_peak_nonneg,
    lemma_scale_bounded, lemma_scale_exact, peak_in_range, peak_of, peak_of_samples, peak_of_wide,
    scale_sample, scale_val, to_ints, to_ints_wide, SAMPLE_UNIT,
};

verus! {

/// Rejected input to an audio operation.
#[derive(Debug, Clone, Copy, PartialEq, Eq, Structural)]
pub enum AudioError {
    /// A zero waveform width was requested.
    InvalidArgument,
    /// Mixing was called with an empty track list.
    NoTracks,
}

/// Session-level audio configuration; the sample rate is not consumed by the
/// three buffer operations themselves.
#[derive(Debug, Clone, Copy, PartialEq, Eq, Structural)]
pub struct AudioProcessor {
    pub sample_rate: u32,
}

/// Informational description of an audio asset; not consumed by the core logic.
#[derive(Debug, Clone, Copy, PartialEq, Eq, Structural)]
pub struct AudioMetadata {
    pub duration_ms: u64,
    pub sample_rate: u32,
    pub num_channels: u8,
}

/// Peak normalization: silence and a buffer already peaking at 1.0 are
/// returned unchanged; anything else is scaled so its peak becomes exactly
/// [`SAMPLE_UNIT`].
pub open spec fn spec_normalize(s: Seq<int>) -> Seq<int> {
    let p = peak_of(s);
    if p == 0 || p == SAMPLE_UNIT as int {
        s
    } else {
        s.map_values(|x: int| scale_val(x, SAMPLE_UNIT as int, p))
    }
}

/// The sum at position `j` of every track's sample there; a track shorter
/// than `j + 1` contributes nothing.
pub open spec fn track_sum_at(tracks: Seq<Seq<int>>, j: int) -> int
    decreases tracks.len(),
{
    if tracks.len() == 0 {
        0
    } else {
        track_sum_at(tracks.drop_last(), j) + if 0 <= j < tracks.last().len() {
            tracks.last()[j]
        } else {
            0
        }
    }
}

/// The raw mix: per-position sums, cut to the first track's length.
pub open spec fn spec_raw_mix(tracks: Seq<Seq<int>>) -> Seq<int> {
    Seq::new(tracks[0].len(), |j: int| track_sum_at(tracks, j))
}

/// Clip prevention: a buffer peaking above 1.0 is attenuated so its peak
/// becomes exactly [`SAMPLE_UNIT`]; a quieter buffer is left as it is.
pub open spec fn spec_clip_guard(s: Seq<int>) -> Seq<int> {
    let p = peak_of(s);
    if p > SAMPLE_UNIT as int {
        s.map_values(|x: int| scale_val(x, SAMPLE_UNIT as int, p))
    } else {
        s
    }
}

/// The mix of a non-empty track list: raw per-position sums over the first
/// track's length, then clip prevention.
pub open spec fn spec_mix(tracks: Seq<Seq<int>>) -> Seq<int> {
    spec_clip_guard(spec_raw_mix(tracks))
}

/// The integer view of a track list.
pub open spec fn tracks_view(tracks: Seq<Vec<i32>>) -> Seq<Seq<int>> {
    tracks.map_values(|t: Vec<i32>| to_ints(t@))
}

/// Clamp of a waveform intensity to the 8-bit output range.
pub open spec fn clamp_255(v: int) -> int {
    if v > 255 {
        255
    } else {
        v
    }
}

/// The intensity of waveform column `i`: the largest magnitude in the
/// column's bucket of `bucket` consecutive samples, scaled by `height / 2`,
/// rounded to the nearest integer — adding half the divisor before the
/// division rounds, with a half-way value rounding up — and clamped to the
/// 8-bit range. Columns whose bucket is empty are 0.
pub open spec fn wave_column(s: Seq<int>, bucket: int, height: int, i: int) -> int {
    if bucket <= 0 || i < 0 || i * bucket >= s.len() {
        0
    } else {
        let lo = i * bucket;
        let hi = if (i + 1) * bucket < s.len() {
            (i + 1) * bucket
        } else {
            s.len() as int
        };
        clamp_255(
            (peak_of(s.subrange(lo, hi)) * height + SAMPLE_UNIT as int) / (2 * SAMPLE_UNIT as int),
        )
    }
}

impl AudioProcessor {
    /// Opens an audio session at the given sample rate.
    pub fn new(sample_rate: u32) -> (r: AudioProcessor)
        ensures
            r == (AudioProcessor { sample_rate }),
    {
        AudioProcessor { sample_rate }
    }

    /// Extracts a peak-per-bucket waveform: one 8-bit intensity per requested
    /// column, the bucket's largest magnitude scaled by half the height and
    /// rounded to the nearest integer. With fewer samples than columns every
    /// bucket is empty and every column is 0 — an explicit truncation policy,
    /// not an error. The only error is a zero requested width.
    pub fn generate_waveform(&self, audio_data: &Vec<i32>, width: u32, height: u32) -> (r: Result<
        Vec<u8>,
        AudioError,
    >)
        ensures
            r is Err <==> width == 0,
            r is Err ==> r == Err::<Vec<u8>, AudioError>(AudioError::InvalidArgument),
            r matches Ok(w) ==> w@.len() == width && forall|i: int|
                0 <= i < width ==> #[trigger] w@[i] as int == wave_column(
                    to_ints(audio_data@),
                    (audio_data@.len() as int) / (width as int),
                    height as int,
                    i,
                ),
    {
        if width == 0 {
            return Err(AudioError::InvalidArgument);
        }
        let len: usize = audio_data.len();
        let bucket: usize = len / (width as usize);
        let mut out: Vec<u8> = Vec::new();
        let mut i: usize = 0;
        while i < width as usize
            invariant
                width > 0,
                len == audio_data@.len(),
                bucket == (len as int) / (width as int),
                i <= width,
                out@.len() == i,
                forall|k: int|
                    0 <= k < i ==> #[trigger] out@[k] as int == wave_column(
                        to_ints(audio_data@),
                        bucket as int,
                        height as int,
                        k,
                    ),
            decreases width - i,
        {
            let value: u8 = if bucket == 0 {
                0
            } else {
                proof {
                    assert((i as int) * (bucket as int) < len as int) by (nonlinear_arith)
                        requires
                            0 <= (i as int) && (i as int) < (width as int),
                            bucket as int == (len as int) / (width as int),
                            (bucket as int) > 0,
                            width > 0,
                    ;
                    assert((i as int) * (bucket as int) + bucket as int == (i as int + 1) * (
                    bucket as int)) by (nonlinear_arith);
                }
                let start: usize = i * bucket;
                let end: usize = if len - start < bucket {
                    len
                } else {
                    start + bucket
                };
                let amp: u64 = peak_in_range(audio_data, start, end);
                proof {
                    assert((amp as int) * (height as int) <= 0x8000_0000 * 0xFFFF_FFFF)
                        by (nonlinear_arith)
                        requires
                            0 <= (amp as int) <= 0x8000_0000,
                            0 <= (height as int) <= 0xFFFF_FFFF,
                    ;
                }
                let scaled: u64 = (amp * (height as u64) + SAMPLE_UNIT as u64) / (2
                    * SAMPLE_UNIT as u64);
                if scaled > 255 {
                    255
                } else {
                    scaled as u8
                }
            };
            out.push(value);
            i = i + 1;
        }
        Ok(out)
    }

    /// Peak normalization: silence (peak 0) and a buffer whose peak is
    /// already exactly 1.0 come back as an unchanged copy; any other buffer
    /// is scaled by `1.0 / peak` so that its peak becomes exactly 1.0. Never
    /// an error; an empty input yields an empty output.
    pub fn normalize_audio(&self, audio_data: &Vec<i32>) -> (r: Vec<i32>)
        ensures
            to_ints(r@) == spec_normalize(to_ints(audio_data@)),
            r@.len() == audio_data@.len(),
    {
        let len: usize = audio_data.len();
        let peak: u64 = peak_of_samples(audio_data);
        let mut out: Vec<i32> = Vec::new();
        if peak == 0 || peak == SAMPLE_UNIT as u64 {
            let mut i: usize = 0;
            while i < len
                invariant
                    len == audio_data@.len(),
                    i <= len,
                    out@.len() == i,
                    forall|k: int| 0 <= k < i ==> out@[k] == audio_data@[k],
                decreases len - i,
            {
                out.push(audio_data[i]);
                i = i + 1;
            }
            proof {
                assert(to_ints(out@) =~= to_ints(audio_data@));
            }
            out
        } else {
            proof {
                lemma_peak_is_bound(to_ints(audio_data@));
                assert forall|k: int| 0 <= k < audio_data@.len() implies abs_val(
                    #[trigger] audio_data@[k] as int,
                ) <= peak as int by {
                    assert(to_ints(audio_data@)[k] == audio_data@[k] as int);
                }
            }
            let mut i: usize = 0;
            while i < len
                invariant
                    len == audio_data@.len(),
                    i <= len,
                    out@.len() == i,
                    peak as int == peak_of(to_ints(audio_data@)),
                    peak > 0,
                    forall|k: int|
                        0 <= k < audio_data@.len() ==> abs_val(#[trigger] audio_data@[k] as int)
                            <= peak as int,
                    forall|k: int|
                        0 <= k < i ==> #[trigger] out@[k] as int == scale_val(
                            audio_data@[k] as int,
                            SAMPLE_UNIT as int,
                            peak as int,
                        ),
                decreases len - i,
            {
                let s: i32 = audio_data[i];
                out.push(scale_sample(s as i64, peak));
                i = i + 1;
            }
            proof {
                assert(to_ints(out@) =~= spec_normalize(to_ints(audio_data@)));
            }
            out
        }
    }

    /// Mixes tracks by per-position summation over the first track's length —
    /// a shorter later track simply stops contributing, a longer one is cut —
    /// then applies clip prevention: if the summed peak exceeds 1.0 the whole
    /// buffer is attenuated by `1.0 / peak`, otherwise it is left unscaled.
    /// The only error is an empty track list.
    pub fn mix_audio_tracks(&self, tracks: &Vec<Vec<i32>>) -> (r: Result<Vec<i32>, AudioError>)
        requires
            tracks@.len() <= 0xFFFF_FFFF,
        ensures
            r is Err <==> tracks@.len() == 0,
            r is Err ==> r == Err::<Vec<i32>, AudioError>(AudioError::NoTracks),
            r matches Ok(out) ==> to_ints(out@) == spec_mix(tracks_view(tracks@))
                && out@.len() == tracks@[0]@.len(),
    {
        if tracks.len() == 0 {
            return Err(AudioError::NoTracks);
        }
        let len: usize = tracks[0].len();
        let ghost tv = tracks_view(tracks@);
        let mut acc: Vec<i64> = Vec::new();
        let mut j: usize = 0;
        while j < len
            invariant
                j <= len,
                acc@.len() == j,
                forall|k: int| 0 <= k < j ==> acc@[k] == 0,
            decreases len - j,
        {
            acc.push(0);
            j = j + 1;
        }
        proof {
            assert(forall|k: int|
                0 <= k < len ==> track_sum_at(#[trigger] tv.take(0), k) == 0);
        }
        let mut t: usize = 0;
        let n_tracks: usize = tracks.len();
        while t < n_tracks
            invariant
                n_tracks == tracks@.len() <= 0xFFFF_FFFF,
                tv == tracks_view(tracks@),
                t <= n_tracks,
                len == tracks@[0]@.len(),
                acc@.len() == len,
                forall|k: int|
                    0 <= k < len ==> #[trigger] acc@[k] as int == track_sum_at(
                        tv.take(t as int),
                        k,
                    ),
                forall|k: int|
                    0 <= k < len ==> abs_val(#[trigger] acc@[k] as int) <= (t as int)
                        * 0x8000_0000,
            decreases n_tracks - t,
        {
            let track_len: usize = tracks[t].len();
            let m: usize = if track_len < len {
                track_len
            } else {
                len
            };
            let mut j: usize = 0;
            while j < m
                invariant
                    n_tracks == tracks@.len() <= 0xFFFF_FFFF,
                    tv == tracks_view(tracks@),
                    t < n_tracks,
                    len == tracks@[0]@.len(),
                    track_len == tracks@[t as int]@.len(),
                    m <= len,
                    m <= track_len,
                    (m == len || m == track_len),
                    j <= m,
                    acc@.len() == len,
                    forall|k: int|
                        0 <= k < j ==> #[trigger] acc@[k] as int == track_sum_at(
                            tv.take(t as int),
                            k,
                        ) + tv[t as int][k],
                    forall|k: int|
                        j <= k < len ==> #[trigger] acc@[k] as int == track_sum_at(
                            tv.take(t as int),
                            k,
                        ),
                    forall|k: int|
                        0 <= k < j ==> abs_val(#[trigger] acc@[k] as int) <= (t as int + 1)
                            * 0x8000_0000,
                    forall|k: int|
                        j <= k < len ==> abs_val(#[trigger] acc@[k] as int) <= (t as int)
                            * 0x8000_0000,
                decreases m - j,
            {
                proof {
                    assert((t as int) * 0x8000_0000 + 0x8000_0000 == (t as int + 1)
                        * 0x8000_0000) by (nonlinear_arith);
                    assert((t as int) * 0x8000_0000 <= 0xFFFF_FFFE * 0x8000_0000) by {
                        vstd::arithmetic::mul::lemma_mul_inequality(
                            t as int,
                            0xFFFF_FFFE,
                            0x8000_0000,
                        );
                    }
                }
                let s: i32 = tracks[t][j];
                let prev: i64 = acc[j];
                acc.set(j, prev + (s as i64));
                j = j + 1;
            }
            proof {
                assert(tv.take(t + 1).drop_last() =~= tv.take(t as int));
                assert(tv.take(t + 1).last() == tv[t as int]);
                assert((t as int) * 0x8000_0000 + 0x8000_0000 == (t as int + 1) * 0x8000_0000)
                    by (nonlinear_arith);
                assert(forall|k: int|
                    0 <= k < len ==> #[trigger] track_sum_at(tv.take(t + 1), k) == track_sum_at(
                        tv.take(t as int),
                        k,
                    ) + if 0 <= k < tv[t as int].len() {
                        tv[t as int][k]
                    } else {
                        0
                    });
                assert(tv[t as int].len() == track_len as int);
                assert((t as int) * 0x8000_0000 >= 0) by (nonlinear_arith)
                    requires
                        t as int >= 0,
                ;
            }
            t = t + 1;
        }
        proof {
            assert(tv.take(n_tracks as int) =~= tv);
            assert(0xFFFF_FFFF * 0x8000_0000 <= 0x7FFF_FFFF_FFFF_FFFF);
            assert((t as int) * 0x8000_0000 <= 0xFFFF_FFFF * 0x8000_0000) by {
                vstd::arithmetic::mul::lemma_mul_inequality(t as int, 0xFFFF_FFFF, 0x8000_0000);
            }
            assert(to_ints_wide(acc@) =~= spec_raw_mix(tv));
        }
        let peak: u64 = peak_of_wide(&acc, 0x7FFF_FFFF_FFFF_FFFF);
        let mut out: Vec<i32> = Vec::new();
        proof {
            lemma_peak_is_bound(to_ints_wide(acc@));
            assert forall|k: int| 0 <= k < acc@.len() implies abs_val(#[trigger] acc@[k] as int)
                <= peak as int by {
                assert(to_ints_wide(acc@)[k] == acc@[k] as int);
            }
        }
        if peak > SAMPLE_UNIT as u64 {
            let mut j: usize = 0;
            while j < len
                invariant
                    j <= len,
                    acc@.len() == len,
                    out@.len() == j,
                    peak as int == peak_of(to_ints_wide(acc@)),
                    peak > 0,
                    forall|k: int|
                        0 <= k < len ==> abs_val(#[trigger] acc@[k] as int) <= peak as int,
                    forall|k: int|
                        0 <= k < j ==> #[trigger] out@[k] as int == scale_val(
                            acc@[k] as int,
                            SAMPLE_UNIT as int,
                            peak as int,
                        ),
                decreases len - j,
            {
                out.push(scale_sample(acc[j], peak));
                j = j + 1;
            }
            proof {
                assert(to_ints(out@) =~= spec_clip_guard(to_ints_wide(acc@)));
            }
            Ok(out)
        } else {
            let mut j: usize = 0;
            while j < len
                invariant
                    j <= len,
                    acc@.len() == len,
                    out@.len() == j,
                    peak as int == peak_of(to_ints_wide(acc@)),
                    peak <= SAMPLE_UNIT as u64,
                    forall|k: int|
                        0 <= k < len ==> abs_val(#[trigger] acc@[k] as int) <= peak as int,
                    forall|k: int| 0 <= k < j ==> #[trigger] out@[k] as int == acc@[k] as int,
                decreases len - j,
            {
                proof {
                    assert(abs_val(acc@[j as int] as int) <= SAMPLE_UNIT as int);
                }
                out.push(acc[j] as i32);
                j = j + 1;
            }
            proof {
                assert(to_ints(out@) =~= spec_clip_guard(to_ints_wide(acc@)));
            }
            Ok(out)
        }
    }
}

/// Normalizing a non-silent buffer makes its peak exactly 1.0.
pub proof fn lemma_normalize_peak(s: Seq<int>)
    requires
        peak_of(s) != 0,
    ensures
        peak_of(spec_normalize(s)) == SAMPLE_UNIT as int,
{
    let p = peak_of(s);
    lemma_peak_nonneg(s);
    if p == SAMPLE_UNIT as int {
    } else {
        let mapped = s.map_values(|x: int| scale_val(x, SAMPLE_UNIT as int, p));
        lemma_peak_is_bound(s);
        assert forall|i: int| 0 <= i < mapped.len() implies #[trigger] abs_val(mapped[i])
            <= SAMPLE_UNIT as int by {
            lemma_scale_bounded(s[i], SAMPLE_UNIT as int, p);
        }
        lemma_peak_le_bound(mapped, SAMPLE_UNIT as int);
        assert(s.len() > 0);
        lemma_peak_is_attained(s);
        let w = choose|i: int| 0 <= i < s.len() && #[trigger] abs_val(s[i]) == p;
        lemma_scale_exact(s[w], SAMPLE_UNIT as int, p);
        lemma_peak_is_bound(mapped);
        assert(abs_val(mapped[w]) == SAMPLE_UNIT as int);
        assert(peak_of(mapped) >= SAMPLE_UNIT as int);
    }
}

/// Normalization is idempotent: normalizing an already normalized buffer
/// changes nothing, exactly — silence stays silence, and a normalized
/// non-silent buffer already peaks at 1.0.
pub proof fn lemma_normalize_idempotent(s: Seq<int>)
    ensures
        spec_normalize(spec_normalize(s)) == spec_normalize(s),
{
    let p = peak_of(s);
    if p == 0 || p == SAMPLE_UNIT as int {
    } else {
        lemma_normalize_peak(s);
    }
}

/// Mixing never clips: the mixed buffer's peak never exceeds 1.0.
pub proof fn lemma_mix_no_clip(tracks: Seq<Seq<int>>)
    requires
        tracks.len() > 0,
    ensures
        peak_of(spec_mix(tracks)) <= SAMPLE_UNIT as int,
{
    let raw = spec_raw_mix(tracks);
    let p = peak_of(raw);
    lemma_peak_nonneg(raw);
    if p > SAMPLE_UNIT as int {
        let mapped = raw.map_values(|x: int| scale_val(x, SAMPLE_UNIT as int, p));
        lemma_peak_is_bound(raw);
        assert forall|i: int| 0 <= i < mapped.len() implies #[trigger] abs_val(mapped[i])
            <= SAMPLE_UNIT as int by {
            lemma_scale_bounded(raw[i], SAMPLE_UNIT as int, p);
        }
        lemma_peak_le_bound(mapped, SAMPLE_UNIT as int);
    }
}

/// The mix keeps the first track's length, whatever the other tracks' lengths.
pub proof fn lemma_mix_length(tracks: Seq<Seq<int>>)
    requires
        tracks.len() > 0,
    ensures
        spec_mix(tracks).len() == tracks[0].len(),
{
}

} // verus!
