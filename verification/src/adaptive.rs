//! Adaptive-window waveform extraction over a fixed-format PCM buffer:
//! 48 kHz, mono, 16-bit signed little-endian samples.
//!
//! The buffer is divided into `points` near-even byte spans; span boundaries
//! are the *target* division points `(i + 1) * total_bytes / points`, so
//! windows may vary by one sample near boundaries. Each output point is the
//! peak absolute sample amplitude of its window, scaled to `0..=255`.

use vstd::prelude::*;

use crate::b64::{base64_of, to_base64};
use crate::duration::Duration;

verus! {

/// Sample rate of the fixed target PCM format, in hertz.
pub const TARGET_SAMPLE_RATE: u32 = 48000;

/// Magnitude of the signed 16-bit little-endian sample with bytes `lo`, `hi`.
/// Raw values of `32768..` encode negatives in two's complement, so the
/// magnitude of `-32768` is `32768`.
pub open spec fn sample_magnitude(lo: u8, hi: u8) -> int {
    let raw = lo as int + 256 * (hi as int);
    if raw >= 32768 {
        65536 - raw
    } else {
        raw
    }
}

/// Peak magnitude among up to `count` consecutive samples starting at byte
/// offset `start`. A sample whose two bytes are not fully inside the buffer
/// contributes zero.
pub open spec fn window_peak(data: Seq<u8>, start: int, count: nat) -> int
    decreases count,
{
    if count == 0 {
        0
    } else {
        let rest = window_peak(data, start + 2, (count - 1) as nat);
        let here = if 0 <= start && start + 2 <= data.len() {
            sample_magnitude(data[start], data[start + 1])
        } else {
            0
        };
        if here >= rest {
            here
        } else {
            rest
        }
    }
}

/// Scale a peak magnitude (`0..=32768`, normalized by dividing by 32768) to
/// an 8-bit value: `min(255, round(peak / 32768 * 255))`, rounding half up.
pub open spec fn scale_to_u8(peak: int) -> int {
    let scaled = (peak * 510 + 32768) / 65536;
    if scaled >= 255 {
        255
    } else {
        scaled
    }
}

/// How many whole samples each point scans: the buffer's sample count divided
/// evenly by the point count (zero for very short buffers).
pub open spec fn samples_per_point(total_bytes: nat, points: nat) -> nat
    recommends
        points >= 1,
{
    total_bytes / (2 * points)
}

/// Byte offset where point `i`'s window starts: the near-even target
/// division boundary `i * total_bytes / points`.
pub open spec fn point_start(total_bytes: nat, points: nat, i: int) -> int
    recommends
        points >= 1,
{
    i * total_bytes / points as int
}

/// The amplitude of output point `i`.
pub open spec fn point_value(data: Seq<u8>, points: nat, i: int) -> int
    recommends
        points >= 1,
{
    scale_to_u8(
        window_peak(
            data,
            point_start(data.len(), points, i),
            samples_per_point(data.len(), points),
        ),
    )
}

/// The whole amplitude envelope: one byte per point.
pub open spec fn waveform_points(data: Seq<u8>, points: nat) -> Seq<u8>
    recommends
        points >= 1,
{
    Seq::new(points, |i: int| point_value(data, points, i) as u8)
}

/// A window peak is never negative.
pub proof fn lemma_window_peak_nonneg(data: Seq<u8>, start: int, count: nat)
    ensures
        window_peak(data, start, count) >= 0,
    decreases count,
{
    if count > 0 {
        lemma_window_peak_nonneg(data, start + 2, (count - 1) as nat);
    }
}

/// A window peak never exceeds the largest sample magnitude, 32768.
pub proof fn lemma_window_peak_le_max(data: Seq<u8>, start: int, count: nat)
    ensures
        window_peak(data, start, count) <= 32768,
    decreases count,
{
    if count > 0 {
        lemma_window_peak_le_max(data, start + 2, (count - 1) as nat);
    }
}

/// Every point amplitude lies in the 8-bit range `0..=255`.
pub proof fn lemma_point_value_bounded(data: Seq<u8>, points: nat, i: int)
    ensures
        0 <= point_value(data, points, i) <= 255,
{
    lemma_window_peak_nonneg(
        data,
        point_start(data.len(), points, i),
        samples_per_point(data.len(), points),
    );
}

/// A point whose window scans zero samples has amplitude zero.
pub proof fn lemma_zero_samples_per_point(data: Seq<u8>, points: nat, i: int)
    requires
        samples_per_point(data.len(), points) == 0,
    ensures
        point_value(data, points, i) == 0,
{
}

/// A full-scale peak (32767 or above) scales to the maximum encodable
/// amplitude, 255 — never beyond it.
pub proof fn lemma_full_scale_saturates(peak: int)
    requires
        32767 <= peak,
    ensures
        scale_to_u8(peak) == 255,
{
}

/// Over an all-zero buffer every window peak is zero.
pub proof fn lemma_window_peak_zero_data(data: Seq<u8>, start: int, count: nat)
    requires
        forall|k: int| 0 <= k < data.len() ==> data[k] == 0u8,
    ensures
        window_peak(data, start, count) == 0,
    decreases count,
{
    if count > 0 {
        lemma_window_peak_zero_data(data, start + 2, (count - 1) as nat);
    }
}

/// Over an all-zero buffer every point amplitude is zero.
pub proof fn lemma_point_value_zero_data(data: Seq<u8>, points: nat, i: int)
    requires
        forall|k: int| 0 <= k < data.len() ==> data[k] == 0u8,
    ensures
        point_value(data, points, i) == 0,
{
    lemma_window_peak_zero_data(
        data,
        point_start(data.len(), points, i),
        samples_per_point(data.len(), points),
    );
}

/// Samples that start at or past the penultimate byte of the buffer (fewer
/// than two bytes remain) contribute nothing, so such a window's peak is
/// zero.
pub proof fn lemma_window_peak_past_end(data: Seq<u8>, start: int, count: nat)
    requires
        start + 2 > data.len(),
        start >= 0,
    ensures
        window_peak(data, start, count) == 0,
    decreases count,
{
    if count > 0 {
        lemma_window_peak_past_end(data, start + 2, (count - 1) as nat);
    }
}

/// Peak absolute amplitude of up to `count` samples from byte offset `start`,
/// as an exact executable counterpart of [`window_peak`].
fn scan_window(data: &Vec<u8>, start: usize, count: usize) -> (peak: u32)
    requires
        start <= data@.len(),
    ensures
        peak == window_peak(data@, start as int, count as nat),
{
    let mut k: usize = 0;
    let mut off: usize = start;
    let mut peak: u32 = 0;
    while k < count
        invariant
            0 <= k <= count,
            off == start + 2 * k,
            off <= data@.len(),
            peak <= 32768,
            window_peak(data@, start as int, count as nat) == (if peak >= window_peak(
                data@,
                off as int,
                (count - k) as nat,
            ) {
                peak as int
            } else {
                window_peak(data@, off as int, (count - k) as nat)
            }),
        decreases count - k,
    {
        if data.len() - off >= 2 {
            let raw: u32 = data[off] as u32 + 256 * (data[off + 1] as u32);
            let here: u32 = if raw >= 32768 {
                65536 - raw
            } else {
                raw
            };
            proof {
                assert(here == sample_magnitude(data@[off as int], data@[off as int + 1]));
                assert(window_peak(data@, off as int, (count - k) as nat) == (if here as int
                    >= window_peak(data@, off as int + 2, (count - k - 1) as nat) {
                    here as int
                } else {
                    window_peak(data@, off as int + 2, (count - k - 1) as nat)
                }));
            }
            if here > peak {
                peak = here;
            }
            off = off + 2;
            k = k + 1;
        } else {
            proof {
                lemma_window_peak_past_end(data@, off as int, (count - k) as nat);
            }
            return peak;
        }
    }
    peak
}

/// One amplitude byte per point, each the scaled peak of its near-even
/// window. Point `i` scans up to `samples_per_point` samples starting at the
/// target division boundary `i * total_bytes / points`.
pub fn extract_points(data: &Vec<u8>, points: usize) -> (r: Vec<u8>)
    requires
        points >= 1,
    ensures
        r@ == waveform_points(data@, points as nat),
        r@.len() == points,
{
    let total = data.len();
    let spp = (total / 2) / points;
    proof {
        vstd::arithmetic::div_mod::lemma_div_denominator(total as int, 2, points as int);
        assert(spp == samples_per_point(total as nat, points as nat));
    }
    let mut out: Vec<u8> = Vec::new();
    let mut i: usize = 0;
    while i < points
        invariant
            0 <= i <= points,
            points >= 1,
            total == data@.len(),
            spp == samples_per_point(total as nat, points as nat),
            out@.len() == i,
            forall|j: int| 0 <= j < i ==> out@[j] == point_value(data@, points as nat, j) as u8,
        decreases points - i,
    {
        proof {
            vstd::arithmetic::mul::lemma_mul_upper_bound(
                i as int,
                0xffffffffffffffff,
                total as int,
                0xffffffffffffffff,
            );
            assert((i as int) * (total as int) <= (points as int) * (total as int))
                by (nonlinear_arith)
                requires
                    0 <= i <= points,
                    0 <= total,
            ;
            assert((i as int) * (total as int) / (points as int) <= (total as int))
                by (nonlinear_arith)
                requires
                    points >= 1,
                    (i as int) * (total as int) <= (points as int) * (total as int),
                    0 <= total,
                    0 <= i,
            ;
        }
        let start128: u128 = (i as u128) * (total as u128) / (points as u128);
        let start: usize = start128 as usize;
        let peak = scan_window(data, start, spp);
        proof {
            lemma_window_peak_le_max(data@, start as int, spp as nat);
            lemma_point_value_bounded(data@, points as nat, i as int);
        }
        let scaled32: u32 = (peak * 510 + 32768) / 65536;
        let value: u8 = if scaled32 >= 255 {
            255
        } else {
            scaled32 as u8
        };
        out.push(value);
        i = i + 1;
    }
    proof {
        assert(out@ =~= waveform_points(data@, points as nat));
    }
    out
}

/// How many points the adaptive policy emits: roughly ten per second of
/// audio (`round(frames / rate * 10)`, half rounded up), capped at 256,
/// with a floor of one.
pub open spec fn spec_point_count(frames: nat, rate: nat) -> nat
    recommends
        rate >= 1,
{
    let rounded = (20 * frames + rate) / (2 * rate);
    if rounded < 1 {
        1
    } else if rounded > 256 {
        256
    } else {
        rounded
    }
}

/// The adaptive point count always lies in `1..=256`.
pub proof fn lemma_point_count_bounds(frames: nat, rate: nat)
    ensures
        1 <= spec_point_count(frames, rate) <= 256,
{
}

/// An input shorter than a tenth of a second (rounded away) still yields
/// exactly one waveform point.
pub proof fn lemma_short_input_single_point(frames: nat, rate: nat)
    requires
        rate >= 1,
        20 * frames < rate,
    ensures
        spec_point_count(frames, rate) == 1,
{
    assert((20 * frames + rate) < 2 * rate);
    assert((20 * frames + rate) / (2 * rate) == 0) by (nonlinear_arith)
        requires
            rate >= 1,
            (20 * frames + rate) < 2 * rate,
            20 * frames + rate >= 0,
    ;
}

/// Executable counterpart of [`spec_point_count`].
pub fn point_count(frames: u64, rate: u32) -> (r: usize)
    requires
        rate >= 1,
    ensures
        r == spec_point_count(frames as nat, rate as nat),
        1 <= r <= 256,
{
    let num: u128 = 20u128 * (frames as u128) + (rate as u128);
    let den: u128 = 2u128 * (rate as u128);
    let rounded: u128 = num / den;
    if rounded < 1 {
        1
    } else if rounded > 256 {
        256
    } else {
        rounded as usize
    }
}

/// The result of the adaptive pipeline on one PCM buffer: the base64-encoded
/// amplitude envelope (one byte per point before encoding) and the buffer's
/// duration.
pub struct AdaptiveOutcome {
    /// Base64 text of the amplitude bytes.
    pub waveform_base64: String,
    /// How many amplitude points the envelope holds.
    pub point_count: usize,
    /// Exact duration of the buffer as a rational number of seconds.
    pub duration: Duration,
}

/// Law: the adaptive pipeline is deterministic. Decoding is a function of
/// the input bytes alone, so two outcomes that both satisfy
/// [`generate_adaptive`]'s postcondition for the same buffer agree on the
/// waveform text, the point count and the duration.
pub proof fn lemma_adaptive_deterministic(
    pcm: Seq<u8>,
    first: AdaptiveOutcome,
    second: AdaptiveOutcome,
)
    requires
        first.duration.numerator == pcm.len() / 2,
        first.duration.denominator == TARGET_SAMPLE_RATE,
        first.point_count == spec_point_count((pcm.len() / 2) as nat, TARGET_SAMPLE_RATE as nat),
        first.waveform_base64@ == base64_of(waveform_points(pcm, first.point_count as nat)),
        second.duration.numerator == pcm.len() / 2,
        second.duration.denominator == TARGET_SAMPLE_RATE,
        second.point_count == spec_point_count((pcm.len() / 2) as nat, TARGET_SAMPLE_RATE as nat),
        second.waveform_base64@ == base64_of(waveform_points(pcm, second.point_count as nat)),
    ensures
        first.waveform_base64@ == second.waveform_base64@,
        first.point_count == second.point_count,
        first.duration == second.duration,
{
}

/// Run the adaptive-window policy over a 48 kHz mono 16-bit little-endian
/// PCM buffer: choose the point count from the duration, extract one scaled
/// peak amplitude per near-even window, and encode the amplitude bytes as
/// standard base64.
pub fn generate_adaptive(pcm: &Vec<u8>) -> (r: AdaptiveOutcome)
    ensures
        r.duration.numerator == pcm@.len() / 2,
        r.duration.denominator == TARGET_SAMPLE_RATE,
        r.duration.wf(),
        r.point_count == spec_point_count((pcm@.len() / 2) as nat, TARGET_SAMPLE_RATE as nat),
        r.waveform_base64@ == base64_of(waveform_points(pcm@, r.point_count as nat)),
        r.waveform_base64@.len() == 4 * ((r.point_count + 2) / 3),
{
    let frames: u64 = (pcm.len() / 2) as u64;
    let points = point_count(frames, TARGET_SAMPLE_RATE);
    let amplitudes = extract_points(pcm, points);
    let waveform_base64 = to_base64(&amplitudes);
    proof {
        crate::b64::lemma_base64_of_len(amplitudes@);
    }
    let duration = Duration::from_frames(frames, TARGET_SAMPLE_RATE);
    AdaptiveOutcome { waveform_base64, point_count: points, duration }
}

} // verus!
