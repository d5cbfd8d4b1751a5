//! The caller's configuration, and the engine's.
use crate::diarize::float::Float32;
use vstd::prelude::*;

verus! {

/// How a diarization is to be done. A field that is `None` takes its default.
#[derive(Debug)]
pub struct DiarizeConfig {
    pub num_clusters: Option<i32>,
    pub threshold: Option<Float32>,
    pub min_duration_on: Option<Float32>,
    pub min_duration_off: Option<Float32>,
    pub provider: Option<String>,
    pub num_embedding_model_threads: Option<usize>,
    pub num_segmentation_model_threads: Option<usize>,
    pub debug: bool,
    pub extract_speaker_embeddings: bool,
}

impl Clone for DiarizeConfig {
    fn clone(&self) -> (r: DiarizeConfig)
        ensures
            r == *self,
    {
        DiarizeConfig {
            num_clusters: self.num_clusters,
            threshold: self.threshold,
            min_duration_on: self.min_duration_on,
            min_duration_off: self.min_duration_off,
            provider: self.provider.clone(),
            num_embedding_model_threads: self.num_embedding_model_threads,
            num_segmentation_model_threads: self.num_segmentation_model_threads,
            debug: self.debug,
            extract_speaker_embeddings: self.extract_speaker_embeddings,
        }
    }
}

impl Default for DiarizeConfig {
    /// Four clusters, a threshold of one half, no minimal durations, one thread
    /// for each model, no debug output and no embeddings. The provider is left
    /// open.
    fn default() -> (r: DiarizeConfig)
        ensures
            r.is_default(),
            r.num_clusters == Some(4i32),
            r.threshold == Some((Float32 { bits: 0x3f00_0000 })),
            r.min_duration_on == Some((Float32 { bits: 0 })),
            r.min_duration_off == Some((Float32 { bits: 0 })),
            r.provider is None,
            r.num_embedding_model_threads == Some(1usize),
            r.num_segmentation_model_threads == Some(1usize),
            !r.debug,
            !r.extract_speaker_embeddings,
    {
        DiarizeConfig {
            num_clusters: Some(4),
            threshold: Some(Float32::half()),
            min_duration_on: Some(Float32::zero()),
            min_duration_off: Some(Float32::zero()),
            provider: None,
            num_embedding_model_threads: Some(1),
            num_segmentation_model_threads: Some(1),
            debug: false,
            extract_speaker_embeddings: false,
        }
    }
}

/// The value of an optional setting, or else its default.
pub open spec fn setting<T>(value: Option<T>, default: T) -> T {
    match value {
        Some(v) => v,
        None => default,
    }
}

/// The first of two optional settings that is given.
pub open spec fn either<T>(first: Option<T>, second: Option<T>) -> Option<T> {
    match first {
        Some(v) => Some(v),
        None => second,
    }
}

impl DiarizeConfig {
    /// Whether this is the default configuration.
    pub open spec fn is_default(self) -> bool {
        &&& self.num_clusters == Some(4i32)
        &&& self.threshold matches Some(t) && t.bits == 0x3f00_0000 && t.is_ratio(1, 2)
        &&& self.min_duration_on matches Some(t) && t.bits == 0 && t.is_ratio(0, 1)
        &&& self.min_duration_off matches Some(t) && t.bits == 0 && t.is_ratio(0, 1)
        &&& self.provider is None
        &&& self.num_embedding_model_threads == Some(1usize)
        &&& self.num_segmentation_model_threads == Some(1usize)
        &&& !self.debug
        &&& !self.extract_speaker_embeddings
    }

    /// The configuration with every open field taken from `base`.
    pub open spec fn filled_from(self, base: DiarizeConfig) -> DiarizeConfig {
        DiarizeConfig {
            num_clusters: either(self.num_clusters, base.num_clusters),
            threshold: either(self.threshold, base.threshold),
            min_duration_on: either(self.min_duration_on, base.min_duration_on),
            min_duration_off: either(self.min_duration_off, base.min_duration_off),
            provider: either(self.provider, base.provider),
            num_embedding_model_threads: either(self.num_embedding_model_threads, base.num_embedding_model_threads),
            num_segmentation_model_threads: either(self.num_segmentation_model_threads, base.num_segmentation_model_threads),
            debug: self.debug,
            extract_speaker_embeddings: self.extract_speaker_embeddings,
        }
    }

    /// The name of the provider that runs the models.
    pub open spec fn provider_name(self, default_provider: Seq<char>) -> Seq<char> {
        match self.provider {
            Some(p) => p@,
            None => default_provider,
        }
    }
}

/// The model that splits audio into stretches of speech.
#[derive(Debug)]
pub struct OfflineSpeakerSegmentationPyannoteModelConfig {
    pub model: String,
}

/// How the segmentation model is run.
#[derive(Debug)]
pub struct OfflineSpeakerSegmentationModelConfig {
    pub pyannote: OfflineSpeakerSegmentationPyannoteModelConfig,
    pub num_threads: i32,
    pub debug: i32,
    pub provider: String,
}

/// How the model that computes speaker embeddings is run.
#[derive(Debug)]
pub struct SpeakerEmbeddingExtractorConfig {
    pub model: String,
    pub num_threads: i32,
    pub debug: i32,
    pub provider: String,
}

/// How embeddings are grouped into speakers.
#[derive(Debug)]
pub struct FastClusteringConfig {
    pub num_clusters: i32,
    pub threshold: Float32,
}

/// All that the engine is told when it is created, with nothing left open.
#[derive(Debug)]
pub struct OfflineSpeakerDiarizationConfig {
    pub segmentation: OfflineSpeakerSegmentationModelConfig,
    pub embedding: SpeakerEmbeddingExtractorConfig,
    pub clustering: FastClusteringConfig,
    pub min_duration_on: Float32,
    pub min_duration_off: Float32,
    pub extract_speaker_embeddings: bool,
}

impl OfflineSpeakerDiarizationConfig {
    /// Whether this is what the engine is to be told, given the two models, the
    /// caller's configuration, and the provider to use where that names none.
    pub open spec fn resolves(
        self,
        segmentation_model: Seq<char>,
        embedding_model: Seq<char>,
        config: DiarizeConfig,
        default_provider: Seq<char>,
    ) -> bool {
        let provider = config.provider_name(default_provider);
        let debug: i32 = if config.debug {
            1
        } else {
            0
        };
        &&& self.segmentation.pyannote.model@ == segmentation_model
        &&& self.segmentation.num_threads == crate::diarize::c_int::wrapped(
            setting(config.num_segmentation_model_threads, 1) as int,
        )
        &&& self.segmentation.debug == debug
        &&& self.segmentation.provider@ == provider
        &&& self.embedding.model@ == embedding_model
        &&& self.embedding.num_threads == crate::diarize::c_int::wrapped(
            setting(config.num_embedding_model_threads, 1) as int,
        )
        &&& self.embedding.debug == debug
        &&& self.embedding.provider@ == provider
        &&& self.clustering.num_clusters == setting(config.num_clusters, 4)
        &&& self.clustering.threshold == setting(config.threshold, Float32 { bits: 0x3f00_0000 })
        &&& self.min_duration_on == setting(config.min_duration_on, Float32 { bits: 0 })
        &&& self.min_duration_off == setting(config.min_duration_off, Float32 { bits: 0 })
        &&& self.extract_speaker_embeddings == config.extract_speaker_embeddings
    }
}

} // verus!
