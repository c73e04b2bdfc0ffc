//! Verified core of typervox, a push-to-talk transcription service.

pub mod capture;
pub mod client;
pub mod engine;
pub mod json;
pub mod server;
pub mod session;
pub mod settings;
pub mod state;
pub mod streams;
pub mod text;
