use sherpa_rs::diarize::{
    Action, Computation, ComputedDiarizationSegments, Diarize, DiarizeConfig, DiarizeError,
    Float32, Reply, Segment,
};

const SD: usize = 10;
const RESULT: usize = 20;
const LIST: usize = 30;

fn float(x: f32) -> Float32 {
    Float32 { bits: x.to_bits() }
}

fn segment(start: f32, end: f32, speaker: i32) -> Segment {
    Segment { start: float(start), end: float(end), speaker }
}

fn diarizer(extract_speaker_embeddings: bool) -> Diarize {
    Diarize::new(
        String::from("seg.onnx"),
        String::from("emb.onnx"),
        DiarizeConfig { extract_speaker_embeddings, ..Default::default() },
        String::from("cpu"),
    )
    .created(SD)
    .unwrap()
}

/// An engine that answers from a script and remembers what it was asked.
struct Engine {
    num_segments: i32,
    list: usize,
    segments: Vec<Segment>,
    /// The answers to the requests for embeddings, in turn: the speaker that is
    /// asked for, and its embedding, if any.
    embeddings: Vec<(i32, Option<Vec<Float32>>)>,
    calls: Vec<Action>,
    fetched: usize,
    held: Vec<usize>,
}

impl Engine {
    fn new(segments: Vec<Segment>, embeddings: Vec<(i32, Option<Vec<Float32>>)>) -> Engine {
        Engine {
            num_segments: segments.len() as i32,
            list: LIST,
            segments,
            embeddings,
            calls: Vec::new(),
            fetched: 0,
            held: Vec::new(),
        }
    }

    fn release(&mut self, address: usize) -> Reply {
        let i = self.held.iter().position(|a| *a == address).expect("is held");
        self.held.remove(i);
        Reply::Released
    }

    fn answer(&mut self, action: Action) -> Reply {
        self.calls.push(action);
        match action {
            Action::Process { sd, .. } => {
                assert_eq!(sd, SD);
                self.held.push(RESULT);
                Reply::Processed { result: RESULT }
            }
            Action::CountSegments { result } => {
                assert!(self.held.contains(&result));
                Reply::Counted { num_segments: self.num_segments }
            }
            Action::SortSegments { result } => {
                assert!(self.held.contains(&result));
                if self.list != 0 {
                    self.held.push(self.list);
                }
                Reply::Sorted { list: self.list }
            }
            Action::ReadSegments { list, count } => {
                assert!(self.held.contains(&list));
                assert_eq!(count, self.segments.len());
                Reply::Read { segments: self.segments.clone() }
            }
            Action::FetchEmbedding { result, speaker } => {
                assert!(self.held.contains(&result));
                let (expected, embedding) = &self.embeddings[self.fetched];
                assert_eq!(speaker, *expected);
                self.fetched += 1;
                match embedding {
                    Some(v) => {
                        self.held.push(1000 + self.fetched);
                        Reply::Fetched { embedding: 1000 + self.fetched, len: v.len() as i32 }
                    }
                    None => Reply::Fetched { embedding: 0, len: 0 },
                }
            }
            Action::CopyEmbedding { embedding, len } => {
                assert!(self.held.contains(&embedding));
                let v = self.embeddings[embedding - 1001].1.clone().expect("was given");
                assert_eq!(len, v.len());
                Reply::Copied { coordinates: v }
            }
            Action::FreeEmbedding { embedding } => self.release(embedding),
            Action::DestroySegments { list } => self.release(list),
            Action::DestroyResult { result } => self.release(result),
        }
    }

    fn run(
        &mut self,
        mut computation: Computation,
    ) -> Result<ComputedDiarizationSegments, DiarizeError> {
        while let Some(action) = computation.next_action() {
            let reply = self.answer(action);
            computation = computation.advance(reply).expect("answer fits");
        }
        assert_eq!(self.fetched, self.embeddings.len());
        computation.into_outcome().expect("is done")
    }
}

#[test]
fn segments_without_embeddings() {
    let segments = vec![segment(0.0, 1.5, 0), segment(1.5, 2.0, 1), segment(2.0, 3.25, 0)];
    let mut engine = Engine::new(segments.clone(), vec![]);
    let found = engine.run(diarizer(false).compute(48000, false)).unwrap();
    assert_eq!(
        engine.calls,
        vec![
            Action::Process { sd: SD, num_samples: 48000, with_callback: false },
            Action::CountSegments { result: RESULT },
            Action::SortSegments { result: RESULT },
            Action::ReadSegments { list: LIST, count: 3 },
            Action::DestroySegments { list: LIST },
            Action::DestroyResult { result: RESULT },
        ]
    );
    assert!(engine.held.is_empty());
    assert_eq!(found.len(), 3);
    assert!(!found.is_empty());
    assert_eq!(found.segments(), &segments[..]);
    assert_eq!(f32::from_bits(found.segments()[2].end.bits), 3.25);
    assert_eq!(found.speaker_embeddings(0), None);
    assert_eq!(found.speaker_embeddings(1), None);
    let listed: Vec<Segment> = found.into_iter().collect();
    assert_eq!(listed, segments);
}

#[test]
fn each_speaker_is_asked_for_once() {
    let a = vec![float(0.25), float(-1.0)];
    let b = vec![float(0.5)];
    let segments = vec![
        segment(0.0, 1.0, 2),
        segment(1.0, 2.0, 2),
        segment(2.0, 3.0, -1),
        segment(3.0, 4.0, 2),
        segment(4.0, 5.0, -1),
    ];
    let mut engine = Engine::new(segments, vec![(2, Some(a.clone())), (-1, Some(b.clone()))]);
    let found = engine.run(diarizer(true).compute(16000, true)).unwrap();
    assert_eq!(
        engine.calls,
        vec![
            Action::Process { sd: SD, num_samples: 16000, with_callback: true },
            Action::CountSegments { result: RESULT },
            Action::SortSegments { result: RESULT },
            Action::ReadSegments { list: LIST, count: 5 },
            Action::FetchEmbedding { result: RESULT, speaker: 2 },
            Action::CopyEmbedding { embedding: 1001, len: 2 },
            Action::FreeEmbedding { embedding: 1001 },
            Action::FetchEmbedding { result: RESULT, speaker: -1 },
            Action::CopyEmbedding { embedding: 1002, len: 1 },
            Action::FreeEmbedding { embedding: 1002 },
            Action::DestroySegments { list: LIST },
            Action::DestroyResult { result: RESULT },
        ]
    );
    assert!(engine.held.is_empty());
    assert!(engine.calls.len() <= 6 + 3 * 5);
    assert_eq!(found.len(), 5);
    assert_eq!(found.speaker_embeddings(2), Some(&a[..]));
    assert_eq!(found.speaker_embeddings(-1), Some(&b[..]));
    assert_eq!(found.speaker_embeddings(0), None);
    let copy = found.clone();
    assert_eq!(copy.segments(), found.segments());
    assert_eq!(copy.speaker_embeddings(2), Some(&a[..]));
}

#[test]
fn a_speaker_without_an_embedding_is_asked_for_again() {
    let a = vec![float(2.0)];
    let segments =
        vec![segment(0.0, 1.0, 0), segment(1.0, 2.0, 1), segment(2.0, 3.0, 0), segment(3.0, 4.0, 1)];
    let mut engine = Engine::new(
        segments,
        vec![(0, None), (1, None), (0, Some(a.clone())), (1, None)],
    );
    let found = engine.run(diarizer(true).compute(16000, false)).unwrap();
    assert!(engine.held.is_empty());
    assert_eq!(found.len(), 4);
    assert_eq!(found.speaker_embeddings(0), Some(&a[..]));
    assert_eq!(found.speaker_embeddings(1), None);
}

#[test]
fn an_empty_embedding_is_an_embedding() {
    let mut engine = Engine::new(vec![segment(0.0, 1.0, 3)], vec![(3, Some(vec![]))]);
    let found = engine.run(diarizer(true).compute(16000, false)).unwrap();
    assert_eq!(found.speaker_embeddings(3), Some(&[][..]));
}

#[test]
fn no_segments_is_an_error() {
    for (num_segments, list) in vec![(0, LIST), (-3, LIST), (2, 0), (0, 0)] {
        let mut engine = Engine::new(vec![], vec![]);
        engine.num_segments = num_segments;
        engine.list = list;
        let error = engine.run(diarizer(true).compute(16000, false)).unwrap_err();
        assert_eq!(error, DiarizeError::NoSegments);
        assert_eq!(error.message(), "No segments found or invalid pointer.");
        assert_eq!(
            engine.calls,
            vec![
                Action::Process { sd: SD, num_samples: 16000, with_callback: false },
                Action::CountSegments { result: RESULT },
                Action::SortSegments { result: RESULT },
            ]
        );
        assert!(engine.held.contains(&RESULT));
        assert_eq!(engine.held.contains(&LIST), list != 0);
    }
}

#[test]
fn sample_counts_wrap_around() {
    let computation = diarizer(false).compute(2147483649, false);
    assert_eq!(
        computation.next_action(),
        Some(Action::Process { sd: SD, num_samples: -2147483647, with_callback: false })
    );
}

#[test]
fn answers_that_do_not_fit_are_refused() {
    let c = diarizer(true).compute(1, false);
    let c = c.advance(Reply::Released).unwrap_err();
    let c = c.advance(Reply::Processed { result: RESULT }).unwrap();
    let c = c.advance(Reply::Sorted { list: LIST }).unwrap_err();
    let c = c.advance(Reply::Counted { num_segments: 1 }).unwrap();
    let c = c.advance(Reply::Sorted { list: LIST }).unwrap();
    let c = c.advance(Reply::Read { segments: vec![] }).unwrap_err();
    assert_eq!(c.next_action(), Some(Action::ReadSegments { list: LIST, count: 1 }));
    let c = c.advance(Reply::Read { segments: vec![segment(0.0, 1.0, 5)] }).unwrap();
    let c = c.advance(Reply::Fetched { embedding: 40, len: -1 }).unwrap_err();
    assert_eq!(c.next_action(), Some(Action::FetchEmbedding { result: RESULT, speaker: 5 }));
    let c = c.advance(Reply::Fetched { embedding: 40, len: 1 }).unwrap();
    let c = c.advance(Reply::Copied { coordinates: vec![] }).unwrap_err();
    assert_eq!(c.next_action(), Some(Action::CopyEmbedding { embedding: 40, len: 1 }));
    let c = c.advance(Reply::Copied { coordinates: vec![float(1.0)] }).unwrap();
    assert_eq!(c.next_action(), Some(Action::FreeEmbedding { embedding: 40 }));
    let c = c.advance(Reply::Released).unwrap();
    let c = c.advance(Reply::Released).unwrap();
    let c = c.advance(Reply::Released).unwrap();
    assert_eq!(c.next_action(), None);
    let c = c.advance(Reply::Released).unwrap_err();
    assert_eq!(c.into_outcome().unwrap().unwrap().len(), 1);
}

#[test]
fn there_is_no_outcome_before_the_end() {
    assert!(diarizer(false).compute(1, false).into_outcome().is_none());
}
