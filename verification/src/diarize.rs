//! Offline speaker diarization.
//!
//! * [`Diarize::new`] turns a [`DiarizeConfig`] into the engine's configuration
//!   and, given the handle that the engine answered with, yields a diarizer.
//! * [`Diarize::compute`] starts a [`Computation`], which says what the engine
//!   is to be asked next and takes each answer, until there is an outcome.
//! * [`ComputedDiarizationSegments`] is the outcome of a computation.
pub mod c_int;
pub mod computation;
pub mod config;
pub mod error;
pub mod float;
pub mod laws;
pub mod segments;
pub mod session;

pub use self::computation::{Action, Computation, Reply};
pub use self::config::{
    DiarizeConfig, FastClusteringConfig, OfflineSpeakerDiarizationConfig,
    OfflineSpeakerSegmentationModelConfig, OfflineSpeakerSegmentationPyannoteModelConfig,
    SpeakerEmbeddingExtractorConfig,
};
pub use self::error::DiarizeError;
pub use self::float::Float32;
pub use self::segments::{ComputedDiarizationSegments, Segment};
pub use self::session::{Diarize, Initialization};
