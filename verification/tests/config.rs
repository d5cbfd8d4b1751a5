use sherpa_rs::diarize::{Diarize, DiarizeConfig, DiarizeError, Float32};

fn float(x: f32) -> Float32 {
    Float32 { bits: x.to_bits() }
}

fn open() -> DiarizeConfig {
    DiarizeConfig {
        num_clusters: None,
        threshold: None,
        min_duration_on: None,
        min_duration_off: None,
        provider: None,
        num_embedding_model_threads: None,
        num_segmentation_model_threads: None,
        debug: false,
        extract_speaker_embeddings: false,
    }
}

fn prepare(config: DiarizeConfig) -> sherpa_rs::diarize::Initialization {
    Diarize::new(String::from("seg.onnx"), String::from("emb.onnx"), config, String::from("cpu"))
}

#[test]
fn constants_are_zero_and_one_half() {
    assert_eq!(f32::from_bits(Float32::half().bits), 0.5);
    assert_eq!(f32::from_bits(Float32::zero().bits), 0.0);
    assert!(f32::from_bits(Float32::zero().bits).is_sign_positive());
}

#[test]
fn default_configuration() {
    let config = DiarizeConfig::default();
    assert_eq!(config.num_clusters, Some(4));
    assert_eq!(config.threshold, Some(float(0.5)));
    assert_eq!(config.min_duration_on, Some(float(0.0)));
    assert_eq!(config.min_duration_off, Some(float(0.0)));
    assert_eq!(config.provider, None);
    assert_eq!(config.num_embedding_model_threads, Some(1));
    assert_eq!(config.num_segmentation_model_threads, Some(1));
    assert!(!config.debug);
    assert!(!config.extract_speaker_embeddings);
}

#[test]
fn open_settings_take_their_defaults() {
    for config in vec![open(), DiarizeConfig::default()] {
        let init = prepare(config);
        let engine = init.config();
        assert_eq!(engine.segmentation.pyannote.model, "seg.onnx");
        assert_eq!(engine.segmentation.num_threads, 1);
        assert_eq!(engine.segmentation.debug, 0);
        assert_eq!(engine.segmentation.provider, "cpu");
        assert_eq!(engine.embedding.model, "emb.onnx");
        assert_eq!(engine.embedding.num_threads, 1);
        assert_eq!(engine.embedding.debug, 0);
        assert_eq!(engine.embedding.provider, "cpu");
        assert_eq!(engine.clustering.num_clusters, 4);
        assert_eq!(engine.clustering.threshold, float(0.5));
        assert_eq!(engine.min_duration_on, float(0.0));
        assert_eq!(engine.min_duration_off, float(0.0));
        assert!(!engine.extract_speaker_embeddings);
    }
}

#[test]
fn given_settings_are_passed_on() {
    let config = DiarizeConfig {
        num_clusters: Some(-1),
        threshold: Some(float(0.75)),
        min_duration_on: Some(float(0.3)),
        min_duration_off: Some(float(0.6)),
        provider: Some(String::from("cuda")),
        num_embedding_model_threads: Some(2),
        num_segmentation_model_threads: Some(3),
        debug: true,
        extract_speaker_embeddings: true,
    };
    let copy = config.clone();
    assert_eq!(copy.provider, Some(String::from("cuda")));
    assert_eq!(copy.num_segmentation_model_threads, Some(3));
    let init = prepare(config);
    let engine = init.config();
    assert_eq!(engine.segmentation.num_threads, 3);
    assert_eq!(engine.segmentation.debug, 1);
    assert_eq!(engine.segmentation.provider, "cuda");
    assert_eq!(engine.embedding.num_threads, 2);
    assert_eq!(engine.embedding.debug, 1);
    assert_eq!(engine.embedding.provider, "cuda");
    assert_eq!(engine.clustering.num_clusters, -1);
    assert_eq!(engine.clustering.threshold, float(0.75));
    assert_eq!(engine.min_duration_on, float(0.3));
    assert_eq!(engine.min_duration_off, float(0.6));
    assert!(engine.extract_speaker_embeddings);
}

#[test]
fn thread_counts_wrap_around() {
    for (count, expected) in vec![
        (0usize, 0i32),
        (2147483647, 2147483647),
        (2147483648, -2147483648),
        (4294967295, -1),
    ] {
        let config = DiarizeConfig {
            num_embedding_model_threads: Some(count),
            num_segmentation_model_threads: Some(count),
            ..open()
        };
        let init = prepare(config);
        assert_eq!(init.config().embedding.num_threads, expected);
        assert_eq!(init.config().segmentation.num_threads, expected);
        assert_eq!(sherpa_rs::diarize::c_int::to_c_int(count), count as i32);
    }
}

#[test]
fn a_null_engine_is_an_error() {
    let error = prepare(open()).created(0).unwrap_err();
    assert_eq!(error, DiarizeError::InitializationFailed);
    assert_eq!(error.message(), "Failed to initialize offline speaker diarization");
}

#[test]
fn an_engine_is_kept_by_its_address() {
    assert_eq!(prepare(open()).created(4096).unwrap().handle(), 4096);
}
