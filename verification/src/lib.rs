//! An audio-ingest pipeline core: decode an arbitrary compressed audio byte
//! stream to PCM, derive a compact peak-amplitude waveform summary, and (in
//! the fixed-window pipeline) re-encode the audio into a lossy container.
//!
//! The library holds everything that can be stated over plain values: track
//! selection and stream-parameter validation, the packet-loop accumulator
//! with its skip-on-error / stop-on-reset policy, both windowing policies,
//! amplitude scaling, duration arithmetic, sample de-interleaving, waveform
//! serialization and its base64 text encoding. Container probing, codec
//! decoding and lossy re-encoding are the calling program's side of the
//! boundary: it hands sample buffers and header values in and performs the
//! actions the library decides.

pub mod adaptive;
pub mod b64;
pub mod decode;
pub mod duration;
pub mod errors;
pub mod fixed;
