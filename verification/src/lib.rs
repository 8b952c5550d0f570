//! A personal local-audio-library player, as a verified core.
//!
//! The crate holds the catalog of tracks with its persistence format, the
//! shuffled play queue of one session, and the playback engine's transport
//! state machine. The audio device, the terminal and the keyboard live in an
//! unverified shell around this library.

pub mod codec;
pub mod engine;
pub mod library;
pub mod queue;
pub mod text;
pub mod ui;
