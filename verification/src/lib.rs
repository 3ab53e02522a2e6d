//! Verified core of a push-to-talk dictation tool: configuration, transcript
//! normalisation, speech-engine arguments, model catalogue, grammar clean-up
//! requests and replies, keyboard typing plans and the recording state machine.

pub mod config;
pub mod text;
pub mod grammar;
pub mod llama;
pub mod models;
pub mod output;
pub mod recording;
pub mod transcript;
pub mod typing;
pub mod whisper;
pub mod window;
