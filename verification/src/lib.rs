//! A debounced digital output and a four-colour light sequencer built on it.
//!
//! * [`line`] holds an `embedded-hal` output pin together with the history
//!   of the level commands issued to it; that history is what every
//!   contract in this crate speaks of. Pins are taken on the promise that
//!   setting them never panics, and then nothing in this crate does.
//! * [`led`] wraps one line, remembers the level it last commanded and skips
//!   writes that would change nothing.
//! * [`controller`] owns four such lights and walks them through a fixed
//!   cycle, one step per call.
//!
//! Timers, clocks and pin configuration belong to the caller.

pub mod line;
pub mod led;
pub mod controller;
