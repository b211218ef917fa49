//! The fixed-window pipeline pieces that work on plain values.
//!
//! In this pipeline the decoded samples are 32-bit floats. The library never
//! computes with floating point; a sample travels through it as its raw
//! 32-bit pattern (`u32`), which is a one-for-one stand-in: positions,
//! counts, serialization and re-ordering are exactly those of the float
//! stream, while the per-window float maximum itself stays with the caller.
//!
//! Windowing here is a fixed stride of [`WINDOW_SIZE`] interleaved samples,
//! deliberately ignoring channel boundaries; the final window may be
//! shorter. The amplitude points are serialized as little-endian 32-bit
//! values, four bytes per point, then base64-encoded.

use vstd::prelude::*;

use crate::b64::{base64_of, to_base64};
use crate::errors::AudioError;

verus! {

/// Samples per fixed window.
pub const WINDOW_SIZE: usize = 1024;

/// How many windows a buffer of `total_samples` interleaved samples yields:
/// `ceil(total_samples / 1024)`; an empty buffer yields none.
pub open spec fn spec_window_count(total_samples: nat) -> nat {
    (total_samples + 1023) / 1024
}

/// A non-empty buffer no longer than one window yields exactly one point.
pub proof fn lemma_single_window(total_samples: nat)
    requires
        1 <= total_samples <= 1024,
    ensures
        spec_window_count(total_samples) == 1,
{
}

/// Executable counterpart of [`spec_window_count`], free of overflow.
pub fn window_count(total_samples: usize) -> (r: usize)
    ensures
        r == spec_window_count(total_samples as nat),
{
    let q = total_samples / 1024;
    let rem = total_samples % 1024;
    if rem == 0 {
        proof {
            vstd::arithmetic::div_mod::lemma_fundamental_div_mod(total_samples as int, 1024);
            assert((total_samples as int + 1023) / 1024 == q) by (nonlinear_arith)
                requires
                    total_samples as int == 1024 * q + 0,
                    q >= 0,
            ;
        }
        q
    } else {
        proof {
            vstd::arithmetic::div_mod::lemma_fundamental_div_mod(total_samples as int, 1024);
            assert((total_samples as int + 1023) / 1024 == q + 1) by (nonlinear_arith)
                requires
                    total_samples as int == 1024 * q + rem,
                    1 <= rem < 1024,
                    q >= 0,
            ;
            assert(q + 1 <= total_samples);
        }
        q + 1
    }
}

/// The four little-endian bytes of one 32-bit value.
pub open spec fn le_bytes_of_word(x: u32) -> Seq<u8> {
    seq![
        (x as int % 256) as u8,
        (x as int / 256 % 256) as u8,
        (x as int / 65536 % 256) as u8,
        (x as int / 16777216 % 256) as u8,
    ]
}

/// Little-endian serialization of a sequence of 32-bit values, four bytes
/// per element, in order.
pub open spec fn le_bytes_of_words(v: Seq<u32>) -> Seq<u8>
    decreases v.len(),
{
    if v.len() == 0 {
        Seq::empty()
    } else {
        le_bytes_of_words(v.drop_last()) + le_bytes_of_word(v.last())
    }
}

/// The serialization takes four bytes per element.
pub proof fn lemma_le_bytes_len(v: Seq<u32>)
    ensures
        le_bytes_of_words(v).len() == 4 * v.len(),
    decreases v.len(),
{
    if v.len() > 0 {
        lemma_le_bytes_len(v.drop_last());
    }
}

/// Serialize the amplitude points (32-bit patterns) to little-endian bytes
/// and encode them as standard base64.
pub fn waveform_base64(points: &Vec<u32>) -> (r: String)
    ensures
        r@ == base64_of(le_bytes_of_words(points@)),
{
    let mut bytes: Vec<u8> = Vec::new();
    let mut i: usize = 0;
    while i < points.len()
        invariant
            0 <= i <= points@.len(),
            bytes@ == le_bytes_of_words(points@.take(i as int)),
        decreases points@.len() - i,
    {
        let x = points[i];
        bytes.push((x % 256) as u8);
        bytes.push((x / 256 % 256) as u8);
        bytes.push((x / 65536 % 256) as u8);
        bytes.push((x / 16777216 % 256) as u8);
        proof {
            assert(points@.take(i + 1).drop_last() =~= points@.take(i as int));
            assert(bytes@ =~= le_bytes_of_words(points@.take(i + 1)));
        }
        i = i + 1;
    }
    proof {
        assert(points@.take(points@.len() as int) =~= points@);
    }
    to_base64(&bytes)
}

/// Parameters the lossy re-encoder is built with. The channel count must fit
/// an 8-bit unsigned range and the sample rate must be positive; anything
/// else is rejected up front as an encoding failure.
pub struct EncoderParams {
    /// Channel count, `1..=255`.
    pub channels: u8,
    /// Sample rate in hertz, positive.
    pub sample_rate: u32,
}

/// Validate re-encoder parameters: `Ok` exactly when the channel count is in
/// `1..=255` and the sample rate is positive; otherwise `EncodeError`.
pub fn encoder_params(channels: usize, sample_rate: u32) -> (r: Result<EncoderParams, AudioError>)
    ensures
        (1 <= channels <= 255 && sample_rate >= 1) <==> r is Ok,
        r is Ok ==> r->Ok_0.channels == channels && r->Ok_0.sample_rate == sample_rate,
        r is Err ==> r->Err_0 == AudioError::EncodeError,
{
    if 1 <= channels && channels <= 255 && sample_rate >= 1 {
        Ok(EncoderParams { channels: channels as u8, sample_rate })
    } else {
        Err(AudioError::EncodeError)
    }
}

/// Split an interleaved sample buffer into one buffer per channel, in
/// channel order: output channel `c` holds, in order, every input sample at
/// an index congruent to `c` modulo `channels`. The two length bounds pin
/// each channel's length exactly.
pub fn deinterleave(pcm: &Vec<u32>, channels: usize) -> (r: Vec<Vec<u32>>)
    requires
        1 <= channels,
        pcm@.len() + channels <= usize::MAX,
    ensures
        r@.len() == channels,
        forall|c: int, j: int|
            0 <= c < channels && 0 <= j < r@[c]@.len() ==> r@[c]@[j] == pcm@[j * channels + c],
        forall|c: int|
            0 <= c < channels ==> r@[c]@.len() * channels + c >= pcm@.len(),
        forall|c: int|
            0 <= c < channels ==> (r@[c]@.len() == 0 || (r@[c]@.len() - 1) * channels + c
                < pcm@.len()),
{
    let mut planar: Vec<Vec<u32>> = Vec::new();
    let mut c: usize = 0;
    while c < channels
        invariant
            0 <= c <= channels,
            1 <= channels,
            pcm@.len() + channels <= usize::MAX,
            planar@.len() == c,
            forall|cc: int, j: int|
                0 <= cc < c && 0 <= j < planar@[cc]@.len() ==> planar@[cc]@[j] == pcm@[j * channels
                    + cc],
            forall|cc: int| 0 <= cc < c ==> planar@[cc]@.len() * channels + cc >= pcm@.len(),
            forall|cc: int|
                0 <= cc < c ==> (planar@[cc]@.len() == 0 || (planar@[cc]@.len() - 1) * channels + cc
                    < pcm@.len()),
        decreases channels - c,
    {
        let mut lane: Vec<u32> = Vec::new();
        let mut idx: usize = c;
        let ghost mut j: int = 0;
        while idx < pcm.len()
            invariant
                0 <= c < channels,
                pcm@.len() + channels <= usize::MAX,
                j >= 0,
                idx == j * channels + c,
                idx < pcm@.len() + channels,
                lane@.len() == j,
                forall|jj: int| 0 <= jj < j ==> lane@[jj] == pcm@[jj * channels + c],
            decreases pcm@.len() + channels - idx,
        {
            lane.push(pcm[idx]);
            proof {
                assert((j + 1) * channels + c == idx + channels) by (nonlinear_arith)
                    requires
                        idx == j * channels + c,
                ;
                j = j + 1;
            }
            idx = idx + channels;
        }
        proof {
            if lane@.len() > 0 {
                assert((lane@.len() - 1) * channels + c == idx - channels) by (nonlinear_arith)
                    requires
                        idx == lane@.len() * channels + c,
                ;
            }
        }
        planar.push(lane);
        c = c + 1;
    }
    planar
}

} // verus!
