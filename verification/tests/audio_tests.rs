use media_core::audio_processor::{AudioError, AudioMetadata, AudioProcessor};
use media_core::sample_math::SAMPLE_UNIT;

const UNIT: i32 = SAMPLE_UNIT;

#[test]
fn new_records_sample_rate() {
    let p = AudioProcessor::new(44100);
    assert_eq!(p.sample_rate, 44100);
}

#[test]
fn metadata_is_plain_data() {
    let m = AudioMetadata {
        duration_ms: 2500,
        sample_rate: 48000,
        num_channels: 2,
    };
    assert_eq!(m.duration_ms, 2500);
    assert_eq!(m.sample_rate, 48000);
    assert_eq!(m.num_channels, 2);
}

#[test]
fn normalize_of_silence_is_silence() {
    let p = AudioProcessor::new(44100);
    let samples = vec![0, 0, 0];
    assert_eq!(p.normalize_audio(&samples), vec![0, 0, 0]);
}

#[test]
fn normalize_of_empty_is_empty() {
    let p = AudioProcessor::new(44100);
    let samples: Vec<i32> = vec![];
    assert_eq!(p.normalize_audio(&samples), Vec::<i32>::new());
}

#[test]
fn normalize_with_peak_already_at_one_copies() {
    let p = AudioProcessor::new(44100);
    let samples = vec![UNIT, -UNIT / 2, 0];
    assert_eq!(p.normalize_audio(&samples), vec![UNIT, -UNIT / 2, 0]);
}

#[test]
fn normalize_scales_quiet_buffer_up() {
    let p = AudioProcessor::new(44100);
    // Peak is UNIT / 2, so every sample is doubled.
    let samples = vec![UNIT / 2, -UNIT / 4, 0];
    assert_eq!(p.normalize_audio(&samples), vec![UNIT, -UNIT / 2, 0]);
}

#[test]
fn normalize_attenuates_loud_buffer() {
    let p = AudioProcessor::new(44100);
    // Peak is 2 * UNIT, so every sample is halved.
    let samples = vec![2 * UNIT, -UNIT];
    assert_eq!(p.normalize_audio(&samples), vec![UNIT, -UNIT / 2]);
}

#[test]
fn normalize_peak_becomes_exactly_one() {
    let p = AudioProcessor::new(44100);
    let samples = vec![UNIT / 3, -UNIT / 7, UNIT / 2];
    let out = p.normalize_audio(&samples);
    let peak = out.iter().map(|s| (*s as i64).abs()).max().unwrap();
    assert_eq!(peak, UNIT as i64);
}

#[test]
fn normalize_is_idempotent() {
    let p = AudioProcessor::new(44100);
    let samples = vec![UNIT / 3, -UNIT / 7, UNIT / 2];
    let once = p.normalize_audio(&samples);
    let twice = p.normalize_audio(&once);
    assert_eq!(twice, once);
}

#[test]
fn normalize_does_not_mutate_input() {
    let p = AudioProcessor::new(44100);
    let samples = vec![UNIT / 2, -UNIT / 4];
    let _ = p.normalize_audio(&samples);
    assert_eq!(samples, vec![UNIT / 2, -UNIT / 4]);
}

#[test]
fn mix_of_no_tracks_is_rejected() {
    let p = AudioProcessor::new(44100);
    let tracks: Vec<Vec<i32>> = vec![];
    assert_eq!(p.mix_audio_tracks(&tracks), Err(AudioError::NoTracks));
}

#[test]
fn mix_keeps_first_track_length() {
    let p = AudioProcessor::new(44100);
    // A 4-sample track mixed with an 8-sample track yields a 4-sample result.
    let tracks = vec![vec![0; 4], vec![UNIT / 8; 8]];
    let out = p.mix_audio_tracks(&tracks).unwrap();
    assert_eq!(out.len(), 4);
}

#[test]
fn mix_scales_peak_above_one_down() {
    let p = AudioProcessor::new(44100);
    // Tracks 1.0, -1.0 and 1.0, 1.0: raw sum 2.0, 0.0; peak 2.0; result 1.0, 0.0.
    let tracks = vec![vec![UNIT, -UNIT], vec![UNIT, UNIT]];
    let out = p.mix_audio_tracks(&tracks).unwrap();
    assert_eq!(out, vec![UNIT, 0]);
}

#[test]
fn mix_leaves_quiet_sum_unscaled() {
    let p = AudioProcessor::new(44100);
    let tracks = vec![vec![UNIT / 4, -UNIT / 8], vec![UNIT / 4, UNIT / 8]];
    let out = p.mix_audio_tracks(&tracks).unwrap();
    assert_eq!(out, vec![UNIT / 2, 0]);
}

#[test]
fn mix_peak_never_exceeds_one() {
    let p = AudioProcessor::new(44100);
    let tracks = vec![
        vec![UNIT, UNIT, -UNIT],
        vec![UNIT, -UNIT / 2, -UNIT],
        vec![UNIT / 2, UNIT / 4, -UNIT],
    ];
    let out = p.mix_audio_tracks(&tracks).unwrap();
    let peak = out.iter().map(|s| (*s as i64).abs()).max().unwrap();
    assert!(peak <= UNIT as i64);
}

#[test]
fn mix_shorter_track_stops_contributing() {
    let p = AudioProcessor::new(44100);
    let tracks = vec![vec![UNIT / 4, UNIT / 4, UNIT / 4], vec![UNIT / 4]];
    let out = p.mix_audio_tracks(&tracks).unwrap();
    assert_eq!(out, vec![UNIT / 2, UNIT / 4, UNIT / 4]);
}

#[test]
fn waveform_rejects_zero_width() {
    let p = AudioProcessor::new(44100);
    let samples = vec![UNIT / 2; 16];
    assert_eq!(
        p.generate_waveform(&samples, 0, 100),
        Err(AudioError::InvalidArgument)
    );
}

#[test]
fn waveform_has_one_column_per_requested_pixel() {
    let p = AudioProcessor::new(44100);
    let samples = vec![UNIT / 2; 100];
    let wave = p.generate_waveform(&samples, 7, 100).unwrap();
    assert_eq!(wave.len(), 7);
}

#[test]
fn waveform_with_fewer_samples_than_columns_is_all_zero() {
    let p = AudioProcessor::new(44100);
    let samples = vec![UNIT; 3];
    let wave = p.generate_waveform(&samples, 8, 100).unwrap();
    assert_eq!(wave, vec![0; 8]);
}

#[test]
fn waveform_column_is_bucket_peak_scaled_by_half_height() {
    let p = AudioProcessor::new(44100);
    // Two buckets of two samples; peaks 1.0 and 0.5; height 100.
    let samples = vec![UNIT, -UNIT / 2, -UNIT / 2, UNIT / 4];
    let wave = p.generate_waveform(&samples, 2, 100).unwrap();
    assert_eq!(wave, vec![50, 25]);
}

#[test]
fn waveform_ignores_trailing_remainder_samples() {
    let p = AudioProcessor::new(44100);
    // Five samples over two columns: bucket size 2, the fifth sample is
    // beyond the last bucket and does not contribute. The second column's
    // exact value 12.5 is a half-way case and rounds up.
    let samples = vec![UNIT / 2, 0, 0, UNIT / 4, UNIT];
    let wave = p.generate_waveform(&samples, 2, 100).unwrap();
    assert_eq!(wave, vec![25, 13]);
}

#[test]
fn waveform_rounds_to_the_nearest_intensity() {
    let p = AudioProcessor::new(44100);
    // Peak 0.5 at height 3: the exact value 0.75 rounds to 1, not down to 0.
    let samples = vec![UNIT / 2];
    let wave = p.generate_waveform(&samples, 1, 3).unwrap();
    assert_eq!(wave, vec![1]);
}

#[test]
fn waveform_intensity_clamps_at_255() {
    let p = AudioProcessor::new(44100);
    // Peak 1.0 at height 1000 would be 500; the 8-bit output clamps to 255.
    let samples = vec![UNIT, UNIT];
    let wave = p.generate_waveform(&samples, 1, 1000).unwrap();
    assert_eq!(wave, vec![255]);
}
