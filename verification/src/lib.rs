//! Speaker diarization: who spoke when, and what each speaker sounds like.
//!
//! The signal processing is done by an engine behind a C interface. This crate
//! holds everything around it: the configuration that the engine is given, the
//! order in which the engine is called, what is done with each of its answers,
//! and the result that a caller reads.
pub mod diarize;
