//! Verified core of My Media Kit: provider settings, the AI gateway's
//! fallback decisions, transcript caching and the text rules they rest on.

pub mod text;
pub mod paths;
pub mod sorting;
pub mod search;
pub mod model;
pub mod config;
pub mod whisper;
pub mod provider_id;
pub mod state;
pub mod gateway;
pub mod settings;
pub mod providers;
pub mod transcription;
pub mod laws;
