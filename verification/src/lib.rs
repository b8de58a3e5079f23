//! Routing of MIDI note events to simulated key presses.
//!
//! A [`config::Config`] maps note numbers to action descriptors. The
//! [`router`] turns the MIDI byte sequences of one audio cycle into the
//! key-down and key-up actions that a host then performs.

pub mod config;
pub mod midi;
pub mod note_key;
pub mod router;
