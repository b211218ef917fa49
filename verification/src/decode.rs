//! The decode-side decisions: which track to decode, whether its header
//! determines usable stream parameters, and the packet loop's
//! skip-on-error / stop-on-reset policy with its PCM accumulator.
//!
//! The caller probes the container and decodes packets; this module decides
//! and accumulates. A decoded sample travels here as its raw 32-bit pattern.

use vstd::prelude::*;

use crate::errors::AudioError;

verus! {

/// What the library needs to know about one track of a probed container.
pub struct TrackInfo {
    /// The container-assigned track identifier.
    pub id: u32,
    /// Whether the track's codec is the null codec (not decodable audio).
    pub codec_is_null: bool,
    /// Sample rate from the track header, if it determines one.
    pub sample_rate: Option<u32>,
    /// Channel count from the track header, if it determines one.
    pub channel_count: Option<u32>,
}

/// The parameters decoding proceeds with.
pub struct StreamParams {
    /// Identifier of the selected track; packets of other tracks are skipped.
    pub track_id: u32,
    /// Sample rate in hertz, positive.
    pub sample_rate: u32,
    /// Channel count, positive.
    pub channel_count: u32,
}

/// Track `i` is the first with a decodable (non-null) codec.
pub open spec fn is_first_decodable(tracks: Seq<TrackInfo>, i: int) -> bool {
    &&& 0 <= i < tracks.len()
    &&& !tracks[i].codec_is_null
    &&& forall|j: int| 0 <= j < i ==> tracks[j].codec_is_null
}

/// The track header determines both stream parameters, and both are usable
/// (positive). A header that reports a zero rate or zero channels determines
/// nothing a decoder could proceed with.
pub open spec fn has_usable_params(t: TrackInfo) -> bool {
    &&& t.sample_rate is Some
    &&& t.sample_rate->0 >= 1
    &&& t.channel_count is Some
    &&& t.channel_count->0 >= 1
}

/// Select the first track with a decodable codec and validate its header:
/// `NoAudioTrack` when every track's codec is null, `MissingStreamParameters`
/// when the selected header does not determine a positive sample rate and
/// channel count, and otherwise exactly that track's parameters.
pub fn select_track(tracks: &Vec<TrackInfo>) -> (r: Result<StreamParams, AudioError>)
    ensures
        (forall|j: int| 0 <= j < tracks@.len() ==> tracks@[j].codec_is_null) <==> r == Err::<
            StreamParams,
            AudioError,
        >(AudioError::NoAudioTrack),
        forall|i: int|
            is_first_decodable(tracks@, i) ==> if has_usable_params(tracks@[i]) {
                &&& r is Ok
                &&& r->Ok_0.track_id == tracks@[i].id
                &&& r->Ok_0.sample_rate == tracks@[i].sample_rate->0
                &&& r->Ok_0.channel_count == tracks@[i].channel_count->0
            } else {
                r == Err::<StreamParams, AudioError>(AudioError::MissingStreamParameters)
            },
        r is Err ==> r->Err_0 == AudioError::NoAudioTrack || r->Err_0
            == AudioError::MissingStreamParameters,
{
    let mut k: usize = 0;
    while k < tracks.len()
        invariant
            0 <= k <= tracks@.len(),
            forall|j: int| 0 <= j < k ==> tracks@[j].codec_is_null,
        decreases tracks@.len() - k,
    {
        if !tracks[k].codec_is_null {
            let t = &tracks[k];
            proof {
                assert(is_first_decodable(tracks@, k as int));
                assert(forall|i: int| is_first_decodable(tracks@, i) ==> i == k as int);
            }
            match (t.sample_rate, t.channel_count) {
                (Some(rate), Some(chans)) => {
                    if rate >= 1 && chans >= 1 {
                        return Ok(
                            StreamParams { track_id: t.id, sample_rate: rate, channel_count: chans },
                        );
                    } else {
                        return Err(AudioError::MissingStreamParameters);
                    }
                },
                _ => {
                    return Err(AudioError::MissingStreamParameters);
                },
            }
        }
        k = k + 1;
    }
    Err(AudioError::NoAudioTrack)
}

/// One turn of the packet loop, as the caller observed it.
pub enum PacketEvent {
    /// A packet decoded into interleaved samples (32-bit sample patterns),
    /// stamped with the track it belongs to.
    Frame { track_id: u32, samples: Vec<u32> },
    /// A malformed packet or a transient per-packet I/O error.
    Recoverable,
    /// A structural reset signal from the underlying stream.
    ResetRequired,
    /// End of the stream or any other terminal condition.
    Terminal,
}

/// What the packet loop does next.
#[derive(Clone, Copy, Debug, PartialEq, Eq, Structural)]
pub enum LoopAction {
    /// Keep decoding with the next packet.
    Continue,
    /// Stop and return what has accumulated so far.
    Stop,
}

/// The PCM accumulator of the packet loop: samples of the selected track, in
/// arrival order.
pub struct PcmAccumulator {
    /// Identifier of the selected track.
    pub track_id: u32,
    /// Accumulated interleaved samples (32-bit sample patterns).
    pub samples: Vec<u32>,
}

impl PcmAccumulator {
    /// An empty accumulator for the selected track.
    pub fn new(track_id: u32) -> (r: PcmAccumulator)
        ensures
            r.track_id == track_id,
            r.samples@ == Seq::<u32>::empty(),
    {
        PcmAccumulator { track_id, samples: Vec::new() }
    }

    /// The deliberate lossy-recovery policy of the packet loop: a frame of
    /// the selected track is appended; a frame of any other track is
    /// skipped; a malformed packet or transient I/O error is skipped, not
    /// fatal; a structural reset (or the end of the stream) stops the loop,
    /// keeping everything accumulated so far — a partial result, not an
    /// error.
    pub fn on_event(&mut self, event: PacketEvent) -> (a: LoopAction)
        ensures
            final (self).track_id == old(self).track_id,
            match event {
                PacketEvent::Frame { track_id, samples } => {
                    if track_id == old(self).track_id {
                        &&& final (self).samples@ == old(self).samples@ + samples@
                        &&& a == LoopAction::Continue
                    } else {
                        &&& final (self).samples@ == old(self).samples@
                        &&& a == LoopAction::Continue
                    }
                },
                PacketEvent::Recoverable => final (self).samples@ == old(self).samples@ && a
                    == LoopAction::Continue,
                PacketEvent::ResetRequired => final (self).samples@ == old(self).samples@ && a
                    == LoopAction::Stop,
                PacketEvent::Terminal => final (self).samples@ == old(self).samples@ && a
                    == LoopAction::Stop,
            },
    {
        match event {
            PacketEvent::Frame { track_id, samples } => {
                if track_id == self.track_id {
                    let mut incoming = samples;
                    self.samples.append(&mut incoming);
                }
                LoopAction::Continue
            },
            PacketEvent::Recoverable => LoopAction::Continue,
            PacketEvent::ResetRequired => LoopAction::Stop,
            PacketEvent::Terminal => LoopAction::Stop,
        }
    }
}

} // verus!
