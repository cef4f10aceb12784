//! Estimates, for a collection of subtitle and lyric files, what fraction of
//! their text lines are Chinese as opposed to Japanese.
//!
//! The pipeline runs in stages: each file's decoded text is handed to a
//! format-specific cue extractor, every extracted cue is stripped of
//! presentation markup, the remaining prose is classified as Chinese,
//! Japanese or other, and two run-wide counters accumulate the outcome.
//! The final report is the ratio of Chinese-classified cues to all cues
//! classified as either target language.

pub mod aggregate;
pub mod classify;
pub mod extract;
pub mod pipeline;
pub mod text;
