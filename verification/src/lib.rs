//! Text to speech for the wintermute fleet.
//!
//! This library holds what the `wm-tts` daemon decides and computes; the
//! program around it talks to the bus, the disk, the network and the player.
//!
//! - [`bus`]: topics, requests and events.
//! - [`cache`]: files of phrases rendered ahead of time.
//! - [`pass`]: one pass over those phrases.
//! - [`cloud`] and [`cloud_ws`]: the optional ElevenLabs service.
//! - [`config`]: configuration and the list of phrases.
//! - [`daemon`]: what is done with each request.
//! - [`synth`]: the Piper backend, speaking rate and gain.
//! - [`voicepack`]: which engine a voice stands for.
//! - [`wav`]: what the header of a WAV file says.
//!
//! Two settings shape the voice: `speaking_rate`, where 1.0 is the tempo of the
//! model and less is slower, and `gain`, by which every sample is multiplied.
//! The defaults, 0.85 and 1.20, suit elderly listeners.

pub mod base64_text;
pub mod bus;
pub mod cache;
pub mod clock;
pub mod cloud;
pub mod cloud_ws;
pub mod config;
pub mod daemon;
pub mod json;
pub mod laws;
pub mod pass;
pub mod paths;
pub mod single;
pub mod synth;
pub mod text;
pub mod vars;
pub mod voicepack;
pub mod wav;

pub use crate::config::{
    cache_config_path, default_cache_root, default_voice, load_cache_yaml, parse_cache_yaml,
    CachePhrases, TtsConfig, TtsError, TtsFields, DEFAULT_CACHE_CONFIG, DEFAULT_VOICE,
};
