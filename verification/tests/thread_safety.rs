use sherpa_rs::diarize::{Action, Diarize, DiarizeConfig, Reply};
use std::sync::Arc;

/// Test that Arc<Diarize> can be sent across threads (Send + Sync)
#[test]
fn test_diarize_is_send_sync() {
    fn assert_send<T: Send>() {}
    fn assert_sync<T: Sync>() {}

    assert_send::<sherpa_rs::diarize::Diarize>();
    assert_sync::<sherpa_rs::diarize::Diarize>();
    assert_send::<Arc<sherpa_rs::diarize::Diarize>>();
    assert_sync::<Arc<sherpa_rs::diarize::Diarize>>();
}

/// Two computations of one shared diarizer take their turns without disturbing
/// each other.
#[test]
fn shared_diarizer_runs_interleaved_computations() {
    let diarizer = Arc::new(
        Diarize::new(
            String::from("segmentation.onnx"),
            String::from("embedding.onnx"),
            DiarizeConfig::default(),
            String::from("cpu"),
        )
        .created(64)
        .expect("engine exists"),
    );
    let first = Arc::clone(&diarizer).compute(48000, false);
    let second = Arc::clone(&diarizer).compute(16000, true);
    assert_eq!(
        first.next_action(),
        Some(Action::Process { sd: 64, num_samples: 48000, with_callback: false })
    );
    assert_eq!(
        second.next_action(),
        Some(Action::Process { sd: 64, num_samples: 16000, with_callback: true })
    );
    let first = first.advance(Reply::Processed { result: 100 }).unwrap();
    let second = second.advance(Reply::Processed { result: 200 }).unwrap();
    let first = first.advance(Reply::Counted { num_segments: 0 }).unwrap();
    assert_eq!(first.next_action(), Some(Action::SortSegments { result: 100 }));
    assert_eq!(second.next_action(), Some(Action::CountSegments { result: 200 }));
}
