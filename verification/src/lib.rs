//! Verified core of a headless Ableton Link session monitor: meter and
//! sequencer arithmetic, MIDI clock decisions, event-log row layout and
//! dashboard text helpers.

pub mod app;
pub mod audio;
pub mod cli;
pub mod controls;
pub mod events;
pub mod meter;
pub mod midi_clock;
pub mod sequencer;
pub mod synth;
pub mod text;
pub mod ui;
