use base64::Engine as _;

use waveform::decode::{select_track, LoopAction, PacketEvent, PcmAccumulator, StreamParams, TrackInfo};
use waveform::duration::Duration;
use waveform::errors::AudioError;
use waveform::fixed::{deinterleave, encoder_params, waveform_base64, window_count};
use waveform::adaptive::{extract_points, generate_adaptive, point_count};

fn b64(bytes: &[u8]) -> String {
    base64::engine::general_purpose::STANDARD.encode(bytes)
}

fn b64_decode(text: &str) -> Vec<u8> {
    base64::engine::general_purpose::STANDARD
        .decode(text)
        .expect("waveform text must be valid base64")
}

/// Little-endian 16-bit samples as a byte buffer.
fn pcm_bytes(samples: &[i16]) -> Vec<u8> {
    let mut out = Vec::new();
    for s in samples {
        let b = s.to_le_bytes();
        out.push(b[0]);
        out.push(b[1]);
    }
    out
}

#[test]
fn base64_of_known_bytes() {
    // One 32-bit point with four distinct bytes: the text must be the
    // standard padded encoding of [1, 2, 3, 4], not the input itself.
    let text = waveform_base64(&vec![0x04030201u32]);
    assert_eq!(text, "AQIDBA==");
    let zero = waveform_base64(&vec![0u32]);
    assert_eq!(zero, "AAAAAA==");
}

#[test]
fn fixed_points_serialize_as_float_bits() {
    let points: Vec<u32> = vec![1.0f32.to_bits(), 0.5f32.to_bits()];
    let mut expected_bytes = Vec::new();
    for p in &points {
        expected_bytes.extend_from_slice(&p.to_le_bytes());
    }
    assert_eq!(waveform_base64(&points), b64(&expected_bytes));
}

#[test]
fn fixed_waveform_round_trips_to_four_bytes_per_point() {
    let points: Vec<u32> = vec![7, 8, 9];
    let decoded = b64_decode(&waveform_base64(&points));
    assert_eq!(decoded.len(), 4 * points.len());
    assert_eq!(decoded, vec![7, 0, 0, 0, 8, 0, 0, 0, 9, 0, 0, 0]);
}

#[test]
fn adaptive_waveform_round_trips_to_one_byte_per_point() {
    let data = pcm_bytes(&vec![1200i16; 48000]);
    let outcome = generate_adaptive(&data);
    let decoded = b64_decode(&outcome.waveform_base64);
    assert_eq!(decoded.len(), outcome.point_count);
}

#[test]
fn adaptive_pipeline_is_deterministic() {
    let samples: Vec<i16> = (0..24000).map(|i| ((i * 37) % 5000) as i16 - 2500).collect();
    let data = pcm_bytes(&samples);
    let first = generate_adaptive(&data);
    let second = generate_adaptive(&data);
    assert_eq!(first.waveform_base64, second.waveform_base64);
    assert_eq!(first.point_count, second.point_count);
    assert_eq!(first.duration.numerator, second.duration.numerator);
    assert_eq!(first.duration.denominator, second.duration.denominator);
}

#[test]
fn one_second_of_silence_gives_ten_zero_points() {
    // 48000 zero frames at 48 kHz: exactly one second.
    let data = vec![0u8; 96000];
    let outcome = generate_adaptive(&data);
    assert_eq!(outcome.duration.numerator, 48000);
    assert_eq!(outcome.duration.denominator, 48000);
    assert_eq!(
        outcome.duration.numerator as f64 / outcome.duration.denominator as f64,
        1.0
    );
    assert_eq!(outcome.point_count, 10);
    assert_eq!(b64_decode(&outcome.waveform_base64), vec![0u8; 10]);
}

#[test]
fn full_scale_tone_saturates_at_255() {
    // 0.1 s of +32767 gives a single point at the maximum encodable value.
    let data = pcm_bytes(&vec![32767i16; 4800]);
    let outcome = generate_adaptive(&data);
    assert_eq!(outcome.point_count, 1);
    assert_eq!(b64_decode(&outcome.waveform_base64), vec![255u8]);

    // The most negative sample has magnitude 32768 and also saturates.
    let negative = pcm_bytes(&vec![-32768i16; 4800]);
    let outcome = generate_adaptive(&negative);
    assert_eq!(b64_decode(&outcome.waveform_base64), vec![255u8]);
}

#[test]
fn short_input_yields_one_point_over_all_samples() {
    // Two frames are far less than a tenth of a second: one point, computed
    // from both samples.
    let data = pcm_bytes(&[1000, -2000]);
    let outcome = generate_adaptive(&data);
    assert_eq!(outcome.point_count, 1);
    // round(2000 / 32768 * 255) == 16
    assert_eq!(b64_decode(&outcome.waveform_base64), vec![16u8]);
}

#[test]
fn zero_samples_per_point_gives_zero_amplitudes() {
    // One sample shared among five points: samples-per-point is zero, so
    // every amplitude is zero and nothing crashes.
    let data = pcm_bytes(&[-32767]);
    let points = extract_points(&data, 5);
    assert_eq!(points, vec![0u8; 5]);
}

#[test]
fn amplitude_scaling_exact_values() {
    // 16384 / 32768 * 255 == 127.5, rounded half up to 128.
    assert_eq!(extract_points(&pcm_bytes(&[16384]), 1), vec![128u8]);
    // A single zero sample stays zero.
    assert_eq!(extract_points(&pcm_bytes(&[0]), 1), vec![0u8]);
    // Peak picks the largest magnitude in the window: |-300| over |200|.
    // round(300 / 32768 * 255) == 2
    assert_eq!(extract_points(&pcm_bytes(&[200, -300]), 1), vec![2u8]);
}

#[test]
fn adaptive_point_count_policy() {
    // One second: ten points per second.
    assert_eq!(point_count(48000, 48000), 10);
    // Rates other than the target work the same way.
    assert_eq!(point_count(44100, 44100), 10);
    // The count is capped at 256.
    assert_eq!(point_count(1_248_000, 48000), 256);
    // ... and floored at 1, even for an empty stream.
    assert_eq!(point_count(0, 48000), 1);
    // Halves round up: 0.15 s gives round(1.5) == 2 points.
    assert_eq!(point_count(7200, 48000), 2);
    // 0.05 s gives round(0.5) == 1 point.
    assert_eq!(point_count(2400, 48000), 1);
}

#[test]
fn fixed_window_count_policy() {
    assert_eq!(window_count(0), 0);
    assert_eq!(window_count(1), 1);
    assert_eq!(window_count(1024), 1);
    assert_eq!(window_count(1025), 2);
    assert_eq!(window_count(2048), 2);
    assert_eq!(window_count(2049), 3);
}

fn track(id: u32, codec_is_null: bool, rate: Option<u32>, chans: Option<u32>) -> TrackInfo {
    TrackInfo {
        id,
        codec_is_null,
        sample_rate: rate,
        channel_count: chans,
    }
}

#[test]
fn select_track_rejects_containers_without_audio() {
    let r = select_track(&vec![]);
    assert!(matches!(r, Err(AudioError::NoAudioTrack)));
    let r = select_track(&vec![track(1, true, Some(44100), Some(2))]);
    assert!(matches!(r, Err(AudioError::NoAudioTrack)));
}

#[test]
fn select_track_rejects_undetermined_parameters() {
    let r = select_track(&vec![track(1, false, None, Some(2))]);
    assert!(matches!(r, Err(AudioError::MissingStreamParameters)));
    let r = select_track(&vec![track(1, false, Some(44100), None)]);
    assert!(matches!(r, Err(AudioError::MissingStreamParameters)));
    // A zero rate or zero channel count determines nothing usable.
    let r = select_track(&vec![track(1, false, Some(0), Some(2))]);
    assert!(matches!(r, Err(AudioError::MissingStreamParameters)));
    let r = select_track(&vec![track(1, false, Some(44100), Some(0))]);
    assert!(matches!(r, Err(AudioError::MissingStreamParameters)));
}

#[test]
fn select_track_picks_first_decodable_track() {
    let tracks = vec![
        track(3, true, Some(8000), Some(1)),
        track(7, false, Some(44100), Some(2)),
        track(9, false, Some(96000), Some(6)),
    ];
    let StreamParams {
        track_id,
        sample_rate,
        channel_count,
    } = select_track(&tracks).expect("second track is decodable");
    assert_eq!(track_id, 7);
    assert_eq!(sample_rate, 44100);
    assert_eq!(channel_count, 2);
}

#[test]
fn packet_loop_skips_and_stops_as_documented() {
    let mut acc = PcmAccumulator::new(7);
    let a = acc.on_event(PacketEvent::Frame {
        track_id: 7,
        samples: vec![1, 2],
    });
    assert_eq!(a, LoopAction::Continue);
    assert_eq!(acc.samples, vec![1, 2]);

    // A frame of another track is skipped.
    let a = acc.on_event(PacketEvent::Frame {
        track_id: 8,
        samples: vec![9],
    });
    assert_eq!(a, LoopAction::Continue);
    assert_eq!(acc.samples, vec![1, 2]);

    // A malformed packet is skipped, not fatal.
    let a = acc.on_event(PacketEvent::Recoverable);
    assert_eq!(a, LoopAction::Continue);
    assert_eq!(acc.samples, vec![1, 2]);

    // A structural reset stops the loop, keeping the partial result.
    let a = acc.on_event(PacketEvent::ResetRequired);
    assert_eq!(a, LoopAction::Stop);
    assert_eq!(acc.samples, vec![1, 2]);

    let a = acc.on_event(PacketEvent::Terminal);
    assert_eq!(a, LoopAction::Stop);
    assert_eq!(acc.samples, vec![1, 2]);
}

#[test]
fn encoder_params_validation() {
    assert!(matches!(encoder_params(0, 44100), Err(AudioError::EncodeError)));
    assert!(matches!(encoder_params(256, 44100), Err(AudioError::EncodeError)));
    assert!(matches!(encoder_params(2, 0), Err(AudioError::EncodeError)));
    let p = encoder_params(2, 44100).expect("two channels at 44.1 kHz are valid");
    assert_eq!(p.channels, 2);
    assert_eq!(p.sample_rate, 44100);
}

#[test]
fn deinterleave_splits_by_channel() {
    let planar = deinterleave(&vec![1, 2, 3, 4, 5], 2);
    assert_eq!(planar, vec![vec![1, 3, 5], vec![2, 4]]);
    let mono = deinterleave(&vec![1, 2, 3], 1);
    assert_eq!(mono, vec![vec![1, 2, 3]]);
    let empty = deinterleave(&vec![], 3);
    assert_eq!(empty, vec![vec![], vec![], vec![]]);
}

#[test]
fn duration_is_exact_ratio() {
    // One second of stereo audio at 44.1 kHz: 88200 interleaved samples.
    let d = Duration::from_interleaved(88200, 2, 44100);
    assert_eq!(d.numerator, 88200);
    assert_eq!(d.denominator, 88200);
    assert_eq!(d.numerator as f64 / d.denominator as f64, 1.0);

    let d = Duration::from_frames(24000, 48000);
    assert_eq!(d.numerator as f64 / d.denominator as f64, 0.5);
}

#[test]
fn fixed_zero_signal_waveform_is_all_zero_points() {
    // One second of 44.1 kHz mono silence: ceil(44100 / 1024) == 44 windows,
    // each with a float peak of 0.0, whose bit pattern is zero.
    assert_eq!(window_count(44100), 44);
    let points = vec![0.0f32.to_bits(); 44];
    let decoded = b64_decode(&waveform_base64(&points));
    assert_eq!(decoded, vec![0u8; 4 * 44]);
}
