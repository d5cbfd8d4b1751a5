//! The diarizer and how it comes to be.
use crate::diarize::c_int::to_c_int;
use crate::diarize::config::{
    DiarizeConfig, FastClusteringConfig, OfflineSpeakerDiarizationConfig,
    OfflineSpeakerSegmentationModelConfig, OfflineSpeakerSegmentationPyannoteModelConfig,
    SpeakerEmbeddingExtractorConfig,
};
use crate::diarize::error::DiarizeError;
use crate::diarize::float::Float32;
use vstd::prelude::*;

verus! {

/// A diarizer: an engine that has been created, by its address, and whether it
/// was told to extract speaker embeddings.
#[derive(Debug)]
pub struct Diarize {
    sd: usize,
    extract_speaker_embeddings: bool,
}

/// A diarizer whose engine has yet to be created.
#[derive(Debug)]
pub struct Initialization {
    config: OfflineSpeakerDiarizationConfig,
}

impl Initialization {
    /// What the engine is to be created with.
    pub closed spec fn engine_config(self) -> OfflineSpeakerDiarizationConfig {
        self.config
    }

    /// What the engine is to be created with.
    pub fn config(&self) -> (r: &OfflineSpeakerDiarizationConfig)
        ensures
            *r == self.engine_config(),
    {
        &self.config
    }

    /// Takes the address of the engine that was created with [`Self::config`]:
    /// zero where the engine could not be created.
    pub fn created(self, sd: usize) -> (r: Result<Diarize, DiarizeError>)
        ensures
            r is Ok <==> sd != 0,
            r matches Ok(d) ==> d.address() == sd && d.extracts()
                == self.engine_config().extract_speaker_embeddings,
            r matches Err(e) ==> e == DiarizeError::InitializationFailed,
    {
        if sd == 0 {
            return Err(DiarizeError::InitializationFailed);
        }
        Ok(Diarize { sd, extract_speaker_embeddings: self.config.extract_speaker_embeddings })
    }
}

impl Diarize {
    #[verifier::type_invariant]
    spec fn type_inv(self) -> bool {
        self.sd != 0
    }

    /// The address of the engine.
    pub closed spec fn address(self) -> usize {
        self.sd
    }

    /// Whether speaker embeddings are extracted.
    pub closed spec fn extracts(self) -> bool {
        self.extract_speaker_embeddings
    }

    /// Prepares a diarizer that uses the models in these two files.
    /// `default_provider` runs them where the configuration names no provider.
    pub fn new(
        segmentation_model: String,
        embedding_model: String,
        config: DiarizeConfig,
        default_provider: String,
    ) -> (r: Initialization)
        ensures
            r.engine_config().resolves(
                segmentation_model@,
                embedding_model@,
                config,
                default_provider@,
            ),
            r.engine_config().segmentation.pyannote.model@ == segmentation_model@,
            r.engine_config().embedding.model@ == embedding_model@,
            config.provider matches Some(p) ==> r.engine_config().segmentation.provider@ == p@
                && r.engine_config().embedding.provider@ == p@,
            config.provider is None ==> r.engine_config().segmentation.provider@
                == default_provider@ && r.engine_config().embedding.provider@ == default_provider@,
            config.num_clusters matches Some(n) ==> r.engine_config().clustering.num_clusters == n,
            config.num_clusters is None ==> r.engine_config().clustering.num_clusters == 4,
            config.threshold matches Some(t) ==> r.engine_config().clustering.threshold == t,
            config.threshold is None ==> r.engine_config().clustering.threshold.bits == 0x3f00_0000,
            config.min_duration_on matches Some(t) ==> r.engine_config().min_duration_on == t,
            config.min_duration_on is None ==> r.engine_config().min_duration_on.bits == 0,
            config.min_duration_off matches Some(t) ==> r.engine_config().min_duration_off == t,
            config.min_duration_off is None ==> r.engine_config().min_duration_off.bits == 0,
            config.num_segmentation_model_threads matches Some(n) ==> {
                &&& n <= i32::MAX ==> r.engine_config().segmentation.num_threads == n
                &&& (n - r.engine_config().segmentation.num_threads) % 0x1_0000_0000 == 0
            },
            config.num_segmentation_model_threads is None
                ==> r.engine_config().segmentation.num_threads == 1,
            config.num_embedding_model_threads matches Some(n) ==> {
                &&& n <= i32::MAX ==> r.engine_config().embedding.num_threads == n
                &&& (n - r.engine_config().embedding.num_threads) % 0x1_0000_0000 == 0
            },
            config.num_embedding_model_threads is None ==> r.engine_config().embedding.num_threads
                == 1,
            config.debug ==> r.engine_config().segmentation.debug == 1
                && r.engine_config().embedding.debug == 1,
            !config.debug ==> r.engine_config().segmentation.debug == 0
                && r.engine_config().embedding.debug == 0,
            r.engine_config().extract_speaker_embeddings == config.extract_speaker_embeddings,
    {
        let provider = config.provider.unwrap_or(default_provider);

        let debug: i32 = if config.debug {
            1
        } else {
            0
        };

        let clustering = FastClusteringConfig {
            num_clusters: config.num_clusters.unwrap_or(4),
            threshold: config.threshold.unwrap_or(Float32::half()),
        };

        Initialization {
            config: OfflineSpeakerDiarizationConfig {
                embedding: SpeakerEmbeddingExtractorConfig {
                    model: embedding_model,
                    num_threads: to_c_int(config.num_embedding_model_threads.unwrap_or(1)),
                    debug,
                    provider: provider.clone(),
                },
                clustering,
                min_duration_off: config.min_duration_off.unwrap_or(Float32::zero()),
                min_duration_on: config.min_duration_on.unwrap_or(Float32::zero()),
                extract_speaker_embeddings: config.extract_speaker_embeddings,
                segmentation: OfflineSpeakerSegmentationModelConfig {
                    pyannote: OfflineSpeakerSegmentationPyannoteModelConfig {
                        model: segmentation_model,
                    },
                    num_threads: to_c_int(config.num_segmentation_model_threads.unwrap_or(1)),
                    debug,
                    provider,
                },
            },
        }
    }

    /// The address of the engine, which is never zero.
    pub fn handle(&self) -> (r: usize)
        ensures
            r == self.address(),
            r != 0,
    {
        proof {
            use_type_invariant(self);
        }
        self.sd
    }

    /// Whether speaker embeddings are extracted.
    pub(crate) fn extracts_embeddings(&self) -> (r: bool)
        ensures
            r == self.extracts(),
    {
        self.extract_speaker_embeddings
    }
}

} // verus!
