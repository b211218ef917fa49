//! Exact duration of a PCM buffer, kept as a rational number of seconds so
//! that nothing is lost to rounding inside the library. A caller that wants
//! a floating-point figure divides the two fields itself.

use vstd::prelude::*;
use vstd::arithmetic::div_mod::lemma_fundamental_div_mod;

verus! {

/// A non-negative duration in seconds, as the exact ratio
/// `numerator / denominator`.
pub struct Duration {
    /// Dividend: a sample or frame count.
    pub numerator: u64,
    /// Divisor: a positive sample rate, possibly multiplied by a channel
    /// count.
    pub denominator: u64,
}

impl Duration {
    /// A duration is well formed when its divisor is positive; its value is
    /// then a non-negative number of seconds.
    pub open spec fn wf(self) -> bool {
        self.denominator >= 1
    }

    /// Duration of an interleaved buffer of `total_samples` samples across
    /// `channels` channels at `rate` hertz:
    /// `total_samples / (channels * rate)` seconds.
    pub fn from_interleaved(total_samples: u64, channels: u32, rate: u32) -> (r: Duration)
        requires
            channels >= 1,
            rate >= 1,
        ensures
            r.numerator == total_samples,
            r.denominator == channels as int * rate as int,
            r.wf(),
    {
        proof {
            assert(1 <= (channels as int) * (rate as int) <= 0xffff_ffff * 0xffff_ffff)
                by (nonlinear_arith)
                requires
                    1 <= channels as int <= 0xffff_ffff,
                    1 <= rate as int <= 0xffff_ffff,
            ;
        }
        Duration { numerator: total_samples, denominator: (channels as u64) * (rate as u64) }
    }

    /// Duration of `frames` whole frames at `rate` hertz: `frames / rate`
    /// seconds.
    pub fn from_frames(frames: u64, rate: u32) -> (r: Duration)
        requires
            rate >= 1,
        ensures
            r.numerator == frames,
            r.denominator == rate,
            r.wf(),
    {
        Duration { numerator: frames, denominator: rate as u64 }
    }
}

/// Law: a duration is never negative (both fields are non-negative counts),
/// and for a buffer whose sample count is a whole number of frames,
/// `total_samples / (channels * rate)` equals `total_frames / rate`, where
/// `total_frames = total_samples / channels`. Both sides are compared by
/// cross-multiplication.
pub proof fn lemma_duration_equals_frames_over_rate(total_samples: nat, channels: nat, rate: nat)
    requires
        channels >= 1,
        rate >= 1,
        total_samples % channels == 0,
    ensures
        total_samples * rate == (total_samples / channels) * (channels * rate),
{
    let frames = total_samples / channels;
    lemma_fundamental_div_mod(total_samples as int, channels as int);
    assert(total_samples == channels * frames);
    assert((channels * frames) * rate == frames * (channels * rate)) by (nonlinear_arith);
}

} // verus!
