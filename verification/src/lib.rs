//! A verified core for a sequenced text-animation driver.
//!
//! A presentation types a few lines of text, one code point at a time, waits
//! between them, lets a block fade out, and shows a finale. This library
//! holds every decision of such a run and proves it; it touches no page and
//! no clock.
//!
//! The library decides; the host performs. A [`sequencer::Sequencer`] is a
//! state machine that hands the host one [`command::Command`] at a time and
//! takes back one [`command::Event`] for each. What it does is stated against
//! [`plan::plan`], the ordered list of commands of a run in which nothing
//! fails, and [`model::SequencerView::step`], the machine as mathematics.
//!
//! - [`script`]: the lines, the pauses and the elements of a run.
//! - [`typed_reveal`]: one line, typed.
//! - [`race`]: the wait for the fade, settled by whichever of the
//!   notification and the fallback timer comes first.
//! - [`plan`] and [`model`]: what a run is, and what holds of every run.
//! - [`sequencer`]: the machine that a host drives.
pub mod command;
pub mod element;
pub mod model;
pub mod plan;
pub mod race;
pub mod script;
pub mod sequencer;
pub mod typed_reveal;
