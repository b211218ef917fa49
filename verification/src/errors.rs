use vstd::prelude::*;

verus! {

/// The ways a pipeline invocation can fail. Every failure is terminal for the
/// current invocation; per-packet decode errors are recovered locally by the
/// packet loop and never surface here.
#[derive(Clone, Copy, Debug, PartialEq, Eq, Structural)]
pub enum AudioError {
    /// No container probe matched the input bytes.
    UnsupportedFormat,
    /// No track carries a decodable (non-null) audio codec.
    NoAudioTrack,
    /// The selected track's header lacks a sample rate or a channel count.
    MissingStreamParameters,
    /// The source format could not be adapted to the fixed target format.
    ResampleError,
    /// Invalid channel count or sample rate, or an encoder-internal failure.
    EncodeError,
    /// A scoped temporary resource could not be created or written.
    ScopedResourceFailure,
}

} // verus!
