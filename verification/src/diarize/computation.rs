//! A diarization in progress.
//!
//! A [`Computation`] names the next call to make into the engine
//! ([`Computation::next_action`]), and moves on when it is given the engine's
//! answer ([`Computation::advance`]), until it has an outcome
//! ([`Computation::into_outcome`]). Engine objects are known by their addresses;
//! zero stands for the null pointer.
use crate::diarize::c_int::to_c_int;
use crate::diarize::error::DiarizeError;
use crate::diarize::float::Float32;
use crate::diarize::segments::{ComputedDiarizationSegments, DiarizationView, Segment};
use crate::diarize::session::Diarize;
use std::collections::BTreeMap;
use vstd::prelude::*;

verus! {

/// A call into the engine.
#[derive(Debug, Clone, Copy, PartialEq, Eq, Structural)]
pub enum Action {
    /// Diarize the samples, reporting progress if there is a callback.
    Process { sd: usize, num_samples: i32, with_callback: bool },
    /// Get the number of segments in a result.
    CountSegments { result: usize },
    /// Get the list of the segments in a result, sorted by start time.
    SortSegments { result: usize },
    /// Read `count` segments from a list.
    ReadSegments { list: usize, count: usize },
    /// Get a speaker's embedding from a result.
    FetchEmbedding { result: usize, speaker: i32 },
    /// Copy the `len` coordinates of an embedding.
    CopyEmbedding { embedding: usize, len: usize },
    /// Release an embedding.
    FreeEmbedding { embedding: usize },
    /// Release a list of segments.
    DestroySegments { list: usize },
    /// Release a result.
    DestroyResult { result: usize },
}

/// The engine's answer to a call.
#[derive(Debug)]
pub enum Reply {
    /// To [`Action::Process`]: the result.
    Processed { result: usize },
    /// To [`Action::CountSegments`].
    Counted { num_segments: i32 },
    /// To [`Action::SortSegments`]: the list, or zero.
    Sorted { list: usize },
    /// To [`Action::ReadSegments`].
    Read { segments: Vec<Segment> },
    /// To [`Action::FetchEmbedding`]: the embedding, or zero, and its length.
    Fetched { embedding: usize, len: i32 },
    /// To [`Action::CopyEmbedding`].
    Copied { coordinates: Vec<Float32> },
    /// To the calls that release something.
    Released,
}

/// An answer, as a mathematical value.
pub enum ReplyView {
    Processed { result: usize },
    Counted { num_segments: i32 },
    Sorted { list: usize },
    Read { segments: Seq<Segment> },
    Fetched { embedding: usize, len: i32 },
    Copied { coordinates: Seq<Float32> },
    Released,
}

impl View for Reply {
    type V = ReplyView;

    open spec fn view(&self) -> ReplyView {
        match self {
            Reply::Processed { result } => ReplyView::Processed { result: *result },
            Reply::Counted { num_segments } => ReplyView::Counted { num_segments: *num_segments },
            Reply::Sorted { list } => ReplyView::Sorted { list: *list },
            Reply::Read { segments } => ReplyView::Read { segments: segments@ },
            Reply::Fetched { embedding, len } => ReplyView::Fetched {
                embedding: *embedding,
                len: *len,
            },
            Reply::Copied { coordinates } => ReplyView::Copied { coordinates: coordinates@ },
            Reply::Released => ReplyView::Released,
        }
    }
}

/// The segments that were read, and how far the embeddings of their speakers
/// have been collected: `position` is the segment whose speaker is dealt with.
pub struct WorkView {
    pub result: usize,
    pub list: usize,
    pub segments: Seq<Segment>,
    pub position: int,
    pub embeddings: Map<i32, Seq<Float32>>,
}

/// How far a computation has come, as a mathematical value. Each stage but the
/// last waits for the answer to one call.
pub enum StageView {
    Process { sd: usize, num_samples: i32, with_callback: bool },
    Count { result: usize },
    Sort { result: usize, num_segments: i32 },
    Read { result: usize, list: usize, num_segments: i32 },
    Fetch { work: WorkView },
    Copy { work: WorkView, embedding: usize, len: i32 },
    Free { work: WorkView, embedding: usize },
    DestroySegments { result: usize, list: usize, found: DiarizationView },
    DestroyResult { result: usize, found: DiarizationView },
    Done { outcome: Result<DiarizationView, DiarizeError> },
}

/// A computation, as a mathematical value.
pub struct ComputationView {
    pub extract: bool,
    pub stage: StageView,
}

/// The first segment at or after `from` whose speaker is not among `known`; the
/// number of segments, if there is none.
pub open spec fn next_missing(segments: Seq<Segment>, known: Set<i32>, from: int) -> int
    decreases segments.len() - from,
{
    if from >= segments.len() {
        segments.len() as int
    } else if known.contains(segments[from].speaker) {
        next_missing(segments, known, from + 1)
    } else {
        from
    }
}

impl WorkView {
    /// What has been found so far.
    pub open spec fn found(self) -> DiarizationView {
        DiarizationView { segments: self.segments, embeddings: self.embeddings }
    }

    /// The speaker that is dealt with.
    pub open spec fn speaker(self) -> i32 {
        self.segments[self.position].speaker
    }

    /// The same work with the coordinates of the speaker's embedding added.
    pub open spec fn with_embedding(self, coordinates: Seq<Float32>) -> WorkView {
        WorkView { embeddings: self.embeddings.insert(self.speaker(), coordinates), ..self }
    }

    /// Where the work stands once everything before segment `from` is dealt with:
    /// at the next speaker without an embedding, or at the end.
    pub open spec fn resumed(self, extract: bool, from: int) -> StageView {
        let position = next_missing(self.segments, self.embeddings.dom(), from);
        if extract && position < self.segments.len() {
            StageView::Fetch { work: WorkView { position, ..self } }
        } else {
            StageView::DestroySegments { result: self.result, list: self.list, found: self.found() }
        }
    }

    /// The work is at a segment, and only speakers of segments have embeddings.
    pub open spec fn wf(self) -> bool {
        &&& self.list != 0
        &&& 0 <= self.position < self.segments.len()
        &&& self.found().wf()
    }
}

impl ComputationView {
    /// A computation by the engine `sd` that has not yet been started.
    pub open spec fn start(
        sd: usize,
        extract: bool,
        num_samples: int,
        with_callback: bool,
    ) -> ComputationView {
        ComputationView {
            extract,
            stage: StageView::Process {
                sd,
                num_samples: crate::diarize::c_int::wrapped(num_samples) as i32,
                with_callback,
            },
        }
    }

    /// The call to make next.
    pub open spec fn action(self) -> Option<Action> {
        match self.stage {
            StageView::Process { sd, num_samples, with_callback } => Some(
                Action::Process { sd, num_samples, with_callback },
            ),
            StageView::Count { result } => Some(Action::CountSegments { result }),
            StageView::Sort { result, .. } => Some(Action::SortSegments { result }),
            StageView::Read { list, num_segments, .. } => Some(
                Action::ReadSegments { list, count: num_segments as usize },
            ),
            StageView::Fetch { work } => Some(
                Action::FetchEmbedding { result: work.result, speaker: work.speaker() },
            ),
            StageView::Copy { embedding, len, .. } => Some(
                Action::CopyEmbedding { embedding, len: len as usize },
            ),
            StageView::Free { embedding, .. } => Some(Action::FreeEmbedding { embedding }),
            StageView::DestroySegments { list, .. } => Some(Action::DestroySegments { list }),
            StageView::DestroyResult { result, .. } => Some(Action::DestroyResult { result }),
            StageView::Done { .. } => None,
        }
    }

    /// Whether `reply` answers the call to make next: it is of the right kind,
    /// what was read or copied has the length that was asked for, and no
    /// embedding has a negative length.
    pub open spec fn accepts(self, reply: ReplyView) -> bool {
        match (self.stage, reply) {
            (StageView::Process { .. }, ReplyView::Processed { .. }) => true,
            (StageView::Count { .. }, ReplyView::Counted { .. }) => true,
            (StageView::Sort { .. }, ReplyView::Sorted { .. }) => true,
            (StageView::Read { num_segments, .. }, ReplyView::Read { segments }) => segments.len()
                == num_segments,
            (StageView::Fetch { .. }, ReplyView::Fetched { embedding, len }) => embedding == 0
                || len >= 0,
            (StageView::Copy { len, .. }, ReplyView::Copied { coordinates }) => coordinates.len()
                == len,
            (StageView::Free { .. }, ReplyView::Released) => true,
            (StageView::DestroySegments { .. }, ReplyView::Released) => true,
            (StageView::DestroyResult { .. }, ReplyView::Released) => true,
            _ => false,
        }
    }

    /// The stage after an answer that is accepted.
    pub open spec fn next_stage(self, reply: ReplyView) -> StageView {
        match (self.stage, reply) {
            (StageView::Process { .. }, ReplyView::Processed { result }) => StageView::Count {
                result,
            },
            (
                StageView::Count { result },
                ReplyView::Counted { num_segments },
            ) => StageView::Sort { result, num_segments },
            (StageView::Sort { result, num_segments }, ReplyView::Sorted { list }) => if list != 0
                && num_segments > 0 {
                StageView::Read { result, list, num_segments }
            } else {
                StageView::Done { outcome: Err(DiarizeError::NoSegments) }
            },
            (StageView::Read { result, list, .. }, ReplyView::Read { segments }) => (WorkView {
                result,
                list,
                segments,
                position: 0,
                embeddings: Map::empty(),
            }).resumed(self.extract, 0),
            (StageView::Fetch { work }, ReplyView::Fetched { embedding, len }) => if embedding
                != 0 {
                StageView::Copy { work, embedding, len }
            } else {
                work.resumed(self.extract, work.position + 1)
            },
            (
                StageView::Copy { work, embedding, .. },
                ReplyView::Copied { coordinates },
            ) => StageView::Free { work: work.with_embedding(coordinates), embedding },
            (StageView::Free { work, .. }, ReplyView::Released) => work.resumed(
                self.extract,
                work.position + 1,
            ),
            (
                StageView::DestroySegments { result, found, .. },
                ReplyView::Released,
            ) => StageView::DestroyResult { result, found },
            (StageView::DestroyResult { found, .. }, ReplyView::Released) => StageView::Done {
                outcome: Ok(found),
            },
            _ => self.stage,
        }
    }

    /// The computation after an answer that is accepted.
    pub open spec fn next(self, reply: ReplyView) -> ComputationView {
        ComputationView { extract: self.extract, stage: self.next_stage(reply) }
    }

    /// What holds of a computation at every stage.
    pub open spec fn wf(self) -> bool {
        match self.stage {
            StageView::Read { list, num_segments, .. } => list != 0 && num_segments > 0,
            StageView::Fetch { work } => {
                &&& self.extract
                &&& work.wf()
                &&& !work.embeddings.contains_key(work.speaker())
            },
            StageView::Copy { work, embedding, len } => {
                &&& self.extract
                &&& work.wf()
                &&& !work.embeddings.contains_key(work.speaker())
                &&& embedding != 0
                &&& len >= 0
            },
            StageView::Free { work, embedding } => {
                &&& self.extract
                &&& work.wf()
                &&& work.embeddings.contains_key(work.speaker())
                &&& embedding != 0
            },
            StageView::DestroySegments { list, found, .. } => {
                &&& list != 0
                &&& found.wf()
                &&& !self.extract ==> found.embeddings == Map::<i32, Seq<Float32>>::empty()
            },
            StageView::DestroyResult { found, .. } => {
                &&& found.wf()
                &&& !self.extract ==> found.embeddings == Map::<i32, Seq<Float32>>::empty()
            },
            StageView::Done { outcome } => outcome matches Ok(found) ==> {
                &&& found.wf()
                &&& !self.extract ==> found.embeddings == Map::<i32, Seq<Float32>>::empty()
            },
            _ => true,
        }
    }
}

/// The segments that were read, and how far the embeddings of their speakers
/// have been collected.
#[derive(Debug)]
struct Work {
    result: usize,
    list: usize,
    segments: Vec<Segment>,
    position: usize,
    embeddings: BTreeMap<i32, Vec<Float32>>,
}

impl View for Work {
    type V = WorkView;

    closed spec fn view(&self) -> WorkView {
        WorkView {
            result: self.result,
            list: self.list,
            segments: self.segments@,
            position: self.position as int,
            embeddings: crate::diarize::segments::vectors(self.embeddings@),
        }
    }
}

impl Work {
    /// Moves on to the next speaker without an embedding, at or after segment
    /// `from`, or to the end.
    fn resume(self, extract: bool, from: usize) -> (r: Stage)
        requires
            from <= self.segments@.len(),
            self@.found().wf(),
            !extract ==> self@.embeddings == Map::<i32, Seq<Float32>>::empty(),
        ensures
            r@ == self@.resumed(extract, from as int),
    {
        let mut position: usize = from;
        if extract {
            while position < self.segments.len() && self.embeddings.contains_key(
                &self.segments[position].speaker,
            )
                invariant
                    from <= position <= self.segments@.len(),
                    next_missing(self.segments@, self@.embeddings.dom(), from as int)
                        == next_missing(self.segments@, self@.embeddings.dom(), position as int),
                decreases self.segments@.len() - position,
            {
                position += 1;
            }
            if position < self.segments.len() {
                return Stage::Fetch { work: Work { position, ..self } };
            }
        }
        Stage::DestroySegments {
            result: self.result,
            list: self.list,
            found: ComputedDiarizationSegments::from_parts(self.segments, self.embeddings),
        }
    }
}

/// How far a computation has come.
#[derive(Debug)]
enum Stage {
    Process { sd: usize, num_samples: i32, with_callback: bool },
    Count { result: usize },
    Sort { result: usize, num_segments: i32 },
    Read { result: usize, list: usize, num_segments: i32 },
    Fetch { work: Work },
    Copy { work: Work, embedding: usize, len: i32 },
    Free { work: Work, embedding: usize },
    DestroySegments { result: usize, list: usize, found: ComputedDiarizationSegments },
    DestroyResult { result: usize, found: ComputedDiarizationSegments },
    Done { outcome: Result<ComputedDiarizationSegments, DiarizeError> },
}

impl View for Stage {
    type V = StageView;

    closed spec fn view(&self) -> StageView {
        match self {
            Stage::Process { sd, num_samples, with_callback } => StageView::Process {
                sd: *sd,
                num_samples: *num_samples,
                with_callback: *with_callback,
            },
            Stage::Count { result } => StageView::Count { result: *result },
            Stage::Sort { result, num_segments } => StageView::Sort {
                result: *result,
                num_segments: *num_segments,
            },
            Stage::Read { result, list, num_segments } => StageView::Read {
                result: *result,
                list: *list,
                num_segments: *num_segments,
            },
            Stage::Fetch { work } => StageView::Fetch { work: work@ },
            Stage::Copy { work, embedding, len } => StageView::Copy {
                work: work@,
                embedding: *embedding,
                len: *len,
            },
            Stage::Free { work, embedding } => StageView::Free {
                work: work@,
                embedding: *embedding,
            },
            Stage::DestroySegments { result, list, found } => StageView::DestroySegments {
                result: *result,
                list: *list,
                found: found@,
            },
            Stage::DestroyResult { result, found } => StageView::DestroyResult {
                result: *result,
                found: found@,
            },
            Stage::Done { outcome } => StageView::Done {
                outcome: match outcome {
                    Ok(found) => Ok(found@),
                    Err(e) => Err(*e),
                },
            },
        }
    }
}

/// A diarization in progress.
#[derive(Debug)]
pub struct Computation {
    extract: bool,
    stage: Stage,
}

impl View for Computation {
    type V = ComputationView;

    closed spec fn view(&self) -> ComputationView {
        ComputationView { extract: self.extract, stage: self.stage@ }
    }
}

impl Diarize {
    /// Starts the diarization of that many samples, with or without a callback
    /// that is told of the progress.
    pub fn compute(&self, num_samples: usize, with_callback: bool) -> (r: Computation)
        ensures
            r@ == ComputationView::start(
                self.address(),
                self.extracts(),
                num_samples as int,
                with_callback,
            ),
            r@.extract == self.extracts(),
            r@.action() matches Some(Action::Process { sd, num_samples: count, with_callback: told })
                && sd == self.address() && told == with_callback && (num_samples <= i32::MAX
                ==> count == num_samples) && (num_samples - count) % 0x1_0000_0000 == 0,
    {
        Computation {
            extract: self.extracts_embeddings(),
            stage: Stage::Process {
                sd: self.handle(),
                num_samples: to_c_int(num_samples),
                with_callback,
            },
        }
    }
}

impl Computation {
    #[verifier::type_invariant]
    spec fn type_inv(self) -> bool {
        self@.wf()
    }

    /// The call to make next, until there is an outcome.
    pub fn next_action(&self) -> (r: Option<Action>)
        ensures
            r == self@.action(),
    {
        match &self.stage {
            Stage::Process { sd, num_samples, with_callback } => Some(
                Action::Process {
                    sd: *sd,
                    num_samples: *num_samples,
                    with_callback: *with_callback,
                },
            ),
            Stage::Count { result } => Some(Action::CountSegments { result: *result }),
            Stage::Sort { result, .. } => Some(Action::SortSegments { result: *result }),
            Stage::Read { list, num_segments, .. } => Some(
                Action::ReadSegments { list: *list, count: *num_segments as usize },
            ),
            Stage::Fetch { work } => {
                proof {
                    use_type_invariant(self);
                }
                Some(
                    Action::FetchEmbedding {
                        result: work.result,
                        speaker: work.segments[work.position].speaker,
                    },
                )
            },
            Stage::Copy { embedding, len, .. } => Some(
                Action::CopyEmbedding { embedding: *embedding, len: *len as usize },
            ),
            Stage::Free { embedding, .. } => Some(Action::FreeEmbedding { embedding: *embedding }),
            Stage::DestroySegments { list, .. } => Some(Action::DestroySegments { list: *list }),
            Stage::DestroyResult { result, .. } => Some(Action::DestroyResult { result: *result }),
            Stage::Done { .. } => None,
        }
    }

    /// Takes the answer to the next call and moves on. An answer that does not fit
    /// that call is refused, and the computation is handed back as it was.
    pub fn advance(self, reply: Reply) -> (r: Result<Computation, Computation>)
        ensures
            r is Ok <==> self@.accepts(reply@),
            r matches Ok(c) ==> c@ == self@.next(reply@),
            r matches Err(c) ==> c@ == self@,
            r is Ok <==> (match (self@.action(), reply) {
                (Some(Action::Process { .. }), Reply::Processed { .. }) => true,
                (Some(Action::CountSegments { .. }), Reply::Counted { .. }) => true,
                (Some(Action::SortSegments { .. }), Reply::Sorted { .. }) => true,
                (Some(Action::ReadSegments { count, .. }), Reply::Read { segments }) => count
                    == segments@.len(),
                (Some(Action::FetchEmbedding { .. }), Reply::Fetched { embedding, len }) => embedding
                    == 0 || len >= 0,
                (Some(Action::CopyEmbedding { len, .. }), Reply::Copied { coordinates }) => len
                    == coordinates@.len(),
                (Some(Action::FreeEmbedding { .. }), Reply::Released) => true,
                (Some(Action::DestroySegments { .. }), Reply::Released) => true,
                (Some(Action::DestroyResult { .. }), Reply::Released) => true,
                _ => false,
            }),
            r matches Ok(c) ==> c@.extract == self@.extract && (match (self@.action(), reply) {
                (Some(Action::Process { .. }), Reply::Processed { result }) => c@.action() == Some(
                    Action::CountSegments { result },
                ),
                (Some(Action::CountSegments { result }), Reply::Counted { .. }) => c@.action()
                    == Some(Action::SortSegments { result }),
                (Some(Action::SortSegments { .. }), Reply::Sorted { list }) => list == 0
                    ==> c@.stage == (StageView::Done { outcome: Err(DiarizeError::NoSegments) }),
                (Some(Action::ReadSegments { list, .. }), Reply::Read { .. }) => !self@.extract
                    ==> c@.action() == Some(Action::DestroySegments { list }),
                (
                    Some(Action::FetchEmbedding { .. }),
                    Reply::Fetched { embedding, len },
                ) => embedding != 0 ==> (c@.action() matches Some(
                    Action::CopyEmbedding { embedding: e, len: n },
                ) && e == embedding && n == len),
                (Some(Action::CopyEmbedding { embedding, .. }), Reply::Copied { .. }) => c@.action()
                    == Some(Action::FreeEmbedding { embedding }),
                (Some(Action::DestroySegments { .. }), Reply::Released) => c@.action() matches Some(
                    Action::DestroyResult { .. },
                ),
                (Some(Action::DestroyResult { .. }), Reply::Released) => c@.stage matches StageView::Done {
                    outcome: Ok(_),
                },
                _ => true,
            }),
    {
        proof {
            use_type_invariant(&self);
            if self@.accepts(reply@) {
                lemma_next_wf(self@, reply@);
            }
        }
        let extract = self.extract;
        let stage = match (self.stage, reply) {
            (Stage::Process { .. }, Reply::Processed { result }) => Stage::Count { result },
            (Stage::Count { result }, Reply::Counted { num_segments }) => Stage::Sort {
                result,
                num_segments,
            },
            (Stage::Sort { result, num_segments }, Reply::Sorted { list }) => {
                if list != 0 && num_segments > 0 {
                    Stage::Read { result, list, num_segments }
                } else {
                    Stage::Done { outcome: Err(DiarizeError::NoSegments) }
                }
            },
            (Stage::Read { result, list, num_segments }, Reply::Read { segments }) => {
                if segments.len() != num_segments as usize {
                    return Err(
                        Computation { extract, stage: Stage::Read { result, list, num_segments } },
                    );
                }
                let work = Work { result, list, segments, position: 0, embeddings: BTreeMap::new() };
                assert(work@.embeddings =~= Map::<i32, Seq<Float32>>::empty());
                work.resume(extract, 0)
            },
            (Stage::Fetch { work }, Reply::Fetched { embedding, len }) => {
                if embedding != 0 {
                    if len < 0 {
                        return Err(Computation { extract, stage: Stage::Fetch { work } });
                    }
                    Stage::Copy { work, embedding, len }
                } else {
                    assert(work.position < work.segments.len());
                    let from: usize = work.position + 1;
                    work.resume(extract, from)
                }
            },
            (Stage::Copy { work, embedding, len }, Reply::Copied { coordinates }) => {
                if coordinates.len() != len as usize {
                    return Err(
                        Computation { extract, stage: Stage::Copy { work, embedding, len } },
                    );
                }
                let ghost before = work@;
                let ghost added = coordinates@;
                let mut work = work;
                let speaker: i32 = work.segments[work.position].speaker;
                work.embeddings.insert(speaker, coordinates);
                assert(work@.embeddings =~= before.with_embedding(added).embeddings);
                Stage::Free { work, embedding }
            },
            (Stage::Free { work, .. }, Reply::Released) => {
                assert(work.position < work.segments.len());
                let from: usize = work.position + 1;
                work.resume(extract, from)
            },
            (
                Stage::DestroySegments { result, found, .. },
                Reply::Released,
            ) => Stage::DestroyResult { result, found },
            (Stage::DestroyResult { found, .. }, Reply::Released) => Stage::Done {
                outcome: Ok(found),
            },
            (stage, _) => {
                return Err(Computation { extract, stage });
            },
        };
        Ok(Computation { extract, stage })
    }

    /// The outcome, once there are no more calls to make.
    pub fn into_outcome(self) -> (r: Option<Result<ComputedDiarizationSegments, DiarizeError>>)
        ensures
            r is Some <==> self@.action() is None,
            r matches Some(Ok(c)) ==> self@.stage == (StageView::Done { outcome: Ok(c@) })
                && c@.wf(),
            r matches Some(Err(e)) ==> self@.stage == (StageView::Done { outcome: Err(e) }),
    {
        proof {
            use_type_invariant(&self);
        }
        match self.stage {
            Stage::Done { outcome } => Some(outcome),
            _ => None,
        }
    }
}

/// `next_missing` is at or after `from`, is not known, and skips only what is.
pub proof fn lemma_next_missing(segments: Seq<Segment>, known: Set<i32>, from: int)
    requires
        0 <= from <= segments.len(),
    ensures
        ({
            let p = next_missing(segments, known, from);
            &&& from <= p <= segments.len()
            &&& p < segments.len() ==> !known.contains(segments[p].speaker)
            &&& forall|i: int| from <= i < p ==> known.contains((#[trigger] segments[i]).speaker)
        }),
    decreases segments.len() - from,
{
    if from < segments.len() && known.contains(segments[from].speaker) {
        lemma_next_missing(segments, known, from + 1);
    }
}

/// Every answer that is accepted keeps a computation well-formed.
pub proof fn lemma_next_wf(c: ComputationView, reply: ReplyView)
    requires
        c.wf(),
        c.accepts(reply),
    ensures
        c.next(reply).wf(),
{
    match (c.stage, reply) {
        (StageView::Read { .. }, ReplyView::Read { segments }) => {
            lemma_next_missing(segments, Map::<i32, Seq<Float32>>::empty().dom(), 0);
        },
        (StageView::Fetch { work }, ReplyView::Fetched { .. }) => {
            lemma_next_missing(work.segments, work.embeddings.dom(), work.position + 1);
        },
        (StageView::Copy { work, .. }, ReplyView::Copied { coordinates }) => {
            let after = work.with_embedding(coordinates);
            assert forall|k: i32| #[trigger]
                after.found().embeddings.contains_key(k) implies after.found().speaks(k) by {
                if k == work.speaker() {
                    assert(after.found().segments[work.position].speaker == k);
                } else {
                    assert(work.found().embeddings.contains_key(k));
                }
            }
        },
        (StageView::Free { work, .. }, ReplyView::Released) => {
            lemma_next_missing(work.segments, work.embeddings.dom(), work.position + 1);
        },
        _ => {},
    }
}

} // verus!
