//! Verified core of a voice-recording and playback toolkit: Opus encoder
//! settings, Ogg Opus stream framing, PCM frame routing, playback hand-off
//! decisions, voice-note file naming and the recorder's activity flags.

pub mod opus_encoder;
pub mod pcm;
pub mod ogg_opus;
pub mod voice_note;
pub mod playback_flow;
pub mod activity;

pub use crate::opus_encoder::{OpusEncoder, OpusEncodingMode};
