//! Ambient context collection for a desktop assistant: a rolling transcript of
//! recognised speech, a bounded digest of the text seen in open windows, and
//! the labelled context string built from both.

pub mod audio;
pub mod capture;
pub mod context;
pub mod ingest;
pub mod resample;
pub mod screen;
pub mod text;
pub mod transcript;
pub mod windows;
