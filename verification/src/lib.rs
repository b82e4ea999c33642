//! A tick-synchronized tracker core: a step sequencer that applies per-tick
//! pitch and volume effects to channel state, and a mixer that turns the
//! resulting channel parameters into a stream of audio samples.

pub mod base32;
pub mod editor;
pub mod mixer;
pub mod sequence;
pub mod track;
