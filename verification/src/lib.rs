//! Aggregation of a streaming service's watch history into per-title episode
//! counts and series metadata, with the rules for the cutoff file and the
//! report file that frame a run.
//!
//! A run reads the cutoff of the run before it ([`cutoff`]), hands the
//! entries of the history one by one to an [`aggregator::Aggregator`] until
//! it stops ([`history`] states what that gathers over a whole history),
//! joins the captured series with their counts and renders them as JSON
//! ([`report`]) under a name that no earlier report has ([`filename`]), and
//! writes the time of its start as the next cutoff.
//!
//! The library computes on plain values; fetching the history, reading and
//! writing files are the caller's. What it takes from `chrono` and
//! `serde_json` it takes through small functions whose contracts are
//! believed, not proved: they are in [`cutoff`] and [`json`].

pub mod aggregator;
pub mod cutoff;
pub mod filename;
pub mod history;
pub mod json;
pub mod media;
pub mod report;
pub mod tally;
pub mod text;
pub mod timestamp;
