//! What holds of whole computations, whatever the engine answers, and of
//! configurations.
use crate::diarize::computation::{Action, ComputationView, Reply, ReplyView, StageView};
use crate::diarize::config::{DiarizeConfig, OfflineSpeakerDiarizationConfig};
use crate::diarize::error::DiarizeError;
use crate::diarize::float::Float32;
use crate::diarize::segments::{DiarizationView, Segment};
use vstd::prelude::*;

verus! {

/// Something that the engine allocated and that has to be released.
pub enum Resource {
    Diarization { address: usize },
    SegmentList { address: usize },
    Embedding { address: usize },
}

/// The resources that a call works on.
pub open spec fn used_by(action: Action) -> Set<Resource> {
    match action {
        Action::Process { .. } => Set::empty(),
        Action::CountSegments { result } => set![Resource::Diarization { address: result }],
        Action::SortSegments { result } => set![Resource::Diarization { address: result }],
        Action::ReadSegments { list, .. } => set![Resource::SegmentList { address: list }],
        Action::FetchEmbedding { result, .. } => set![Resource::Diarization { address: result }],
        Action::CopyEmbedding { embedding, .. } => set![Resource::Embedding { address: embedding }],
        Action::FreeEmbedding { embedding } => set![Resource::Embedding { address: embedding }],
        Action::DestroySegments { list } => set![Resource::SegmentList { address: list }],
        Action::DestroyResult { result } => set![Resource::Diarization { address: result }],
    }
}

/// The resources that a call releases.
pub open spec fn released_by(action: Action) -> Set<Resource> {
    match action {
        Action::FreeEmbedding { .. } => used_by(action),
        Action::DestroySegments { .. } => used_by(action),
        Action::DestroyResult { .. } => used_by(action),
        _ => Set::empty(),
    }
}

/// The resources that come with an answer. A null list or embedding is none.
pub open spec fn brought_by(reply: ReplyView) -> Set<Resource> {
    match reply {
        ReplyView::Processed { result } => set![Resource::Diarization { address: result }],
        ReplyView::Sorted { list } if list != 0 => set![Resource::SegmentList { address: list }],
        ReplyView::Fetched { embedding, .. } if embedding != 0 => set![
            Resource::Embedding { address: embedding },
        ],
        _ => Set::empty(),
    }
}

impl ComputationView {
    /// Whether the computation has only just been started.
    pub open spec fn fresh(self) -> bool {
        self.stage is Process
    }

    /// Whether the computation ends with this outcome after these answers.
    pub open spec fn ends_with(
        self,
        replies: Seq<ReplyView>,
        outcome: Result<DiarizationView, DiarizeError>,
    ) -> bool {
        &&& self.fresh()
        &&& self.accepts_all(replies)
        &&& self.after(replies).stage == (StageView::Done { outcome })
    }

    /// Whether each of these answers is accepted in its turn.
    pub open spec fn accepts_all(self, replies: Seq<ReplyView>) -> bool
        decreases replies.len(),
    {
        replies.len() > 0 ==> {
            &&& self.accepts_all(replies.drop_last())
            &&& self.after(replies.drop_last()).accepts(replies.last())
        }
    }

    /// The computation after these answers.
    pub open spec fn after(self, replies: Seq<ReplyView>) -> ComputationView
        decreases replies.len(),
    {
        if replies.len() == 0 {
            self
        } else {
            self.after(replies.drop_last()).next(replies.last())
        }
    }

    /// The calls that were answered by these answers.
    pub open spec fn calls(self, replies: Seq<ReplyView>) -> Seq<Action>
        decreases replies.len(),
    {
        if replies.len() == 0 {
            Seq::empty()
        } else {
            self.calls(replies.drop_last()).push(
                self.after(replies.drop_last()).action().unwrap(),
            )
        }
    }

    /// The resources that have come with these answers and have not been released.
    pub open spec fn held(self, replies: Seq<ReplyView>) -> Set<Resource>
        decreases replies.len(),
    {
        if replies.len() == 0 {
            Set::empty()
        } else {
            self.held(replies.drop_last()).difference(
                released_by(self.after(replies.drop_last()).action().unwrap()),
            ).union(brought_by(replies.last()))
        }
    }

    /// Whether call `i` asked for the embedding of `speaker`.
    pub open spec fn asked(self, replies: Seq<ReplyView>, i: int, speaker: i32) -> bool {
        &&& 0 <= i < replies.len()
        &&& self.calls(replies)[i] matches Action::FetchEmbedding { speaker: s, .. }
        &&& s == speaker
    }

    /// Whether call `i` asked for the embedding of `speaker` and was given one.
    pub open spec fn given(self, replies: Seq<ReplyView>, i: int, speaker: i32) -> bool {
        &&& self.asked(replies, i, speaker)
        &&& replies[i] matches ReplyView::Fetched { embedding, .. }
        &&& embedding != 0
    }

    /// Whether the embedding of `speaker` has been asked for.
    pub open spec fn was_asked(self, replies: Seq<ReplyView>, speaker: i32) -> bool {
        exists|i: int| #[trigger] self.asked(replies, i, speaker)
    }

    /// Whether an embedding of `speaker` has been given.
    pub open spec fn was_given(self, replies: Seq<ReplyView>, speaker: i32) -> bool {
        exists|i: int| #[trigger] self.given(replies, i, speaker)
    }

    /// A bound on the number of answers still to come, once the segments are read.
    pub open spec fn remaining(self) -> int {
        match self.stage {
            StageView::Fetch { work } => 3 * (work.segments.len() - work.position) + 2,
            StageView::Copy { work, .. } => 3 * (work.segments.len() - work.position) + 1,
            StageView::Free { work, .. } => 3 * (work.segments.len() - work.position),
            StageView::DestroySegments { .. } => 2,
            StageView::DestroyResult { .. } => 1,
            _ => 0,
        }
    }

    /// The segments that were read, once they have been.
    pub open spec fn segments(self) -> Option<Seq<Segment>> {
        match self.stage {
            StageView::Fetch { work } => Some(work.segments),
            StageView::Copy { work, .. } => Some(work.segments),
            StageView::Free { work, .. } => Some(work.segments),
            StageView::DestroySegments { found, .. } => Some(found.segments),
            StageView::DestroyResult { found, .. } => Some(found.segments),
            StageView::Done { outcome: Ok(found) } => Some(found.segments),
            _ => None,
        }
    }

    /// The embeddings collected so far.
    pub open spec fn embeddings(self) -> Map<i32, Seq<Float32>> {
        match self.stage {
            StageView::Fetch { work } => work.embeddings,
            StageView::Copy { work, .. } => work.embeddings,
            StageView::Free { work, .. } => work.embeddings,
            StageView::DestroySegments { found, .. } => found.embeddings,
            StageView::DestroyResult { found, .. } => found.embeddings,
            StageView::Done { outcome: Ok(found) } => found.embeddings,
            _ => Map::empty(),
        }
    }

    /// The number of leading segments whose speakers have been dealt with.
    pub open spec fn dealt_with(self) -> int {
        match self.stage {
            StageView::Fetch { work } => work.position,
            StageView::Copy { work, .. } => work.position,
            StageView::Free { work, .. } => work.position,
            _ => match self.segments() {
                Some(s) => s.len() as int,
                None => 0,
            },
        }
    }
}

/// Whether the answers begin with this result, a list of this many segments, and
/// these segments.
pub open spec fn begins(replies: Seq<ReplyView>, result: usize, segments: Seq<Segment>) -> bool {
    &&& replies.len() >= 4
    &&& replies[0] == (ReplyView::Processed { result })
    &&& replies[1] matches ReplyView::Counted { num_segments }
    &&& num_segments == segments.len()
    &&& num_segments > 0
    &&& replies[2] matches ReplyView::Sorted { list }
    &&& list != 0
    &&& replies[3] == (ReplyView::Read { segments })
}

/// How the stage that a computation has reached follows from the first answers.
spec fn opened(stage: StageView, replies: Seq<ReplyView>) -> bool {
    match stage {
        StageView::Process { .. } => replies.len() == 0,
        StageView::Count { result } => {
            &&& replies.len() == 1
            &&& replies[0] == (ReplyView::Processed { result })
        },
        StageView::Sort { result, num_segments } => {
            &&& replies.len() == 2
            &&& replies[0] == (ReplyView::Processed { result })
            &&& replies[1] == (ReplyView::Counted { num_segments })
        },
        StageView::Read { result, list, num_segments } => {
            &&& replies.len() == 3
            &&& replies[0] == (ReplyView::Processed { result })
            &&& replies[1] == (ReplyView::Counted { num_segments })
            &&& replies[2] == (ReplyView::Sorted { list })
        },
        StageView::Fetch { work } => {
            &&& begins(replies, work.result, work.segments)
            &&& replies[2] == (ReplyView::Sorted { list: work.list })
        },
        StageView::Copy { work, .. } => {
            &&& begins(replies, work.result, work.segments)
            &&& replies[2] == (ReplyView::Sorted { list: work.list })
        },
        StageView::Free { work, .. } => {
            &&& begins(replies, work.result, work.segments)
            &&& replies[2] == (ReplyView::Sorted { list: work.list })
        },
        StageView::DestroySegments { result, list, found } => {
            &&& begins(replies, result, found.segments)
            &&& replies[2] == (ReplyView::Sorted { list })
        },
        StageView::DestroyResult { result, found } => {
            &&& begins(replies, result, found.segments)
        },
        StageView::Done { outcome: Ok(found) } => {
            &&& replies[0] matches ReplyView::Processed { result }
            &&& begins(replies, result, found.segments)
        },
        StageView::Done { outcome: Err(e) } => {
            &&& e == DiarizeError::NoSegments
            &&& replies.len() == 3
            &&& replies[0] is Processed
            &&& replies[1] matches ReplyView::Counted { num_segments }
            &&& replies[2] matches ReplyView::Sorted { list }
            &&& num_segments <= 0 || list == 0
        },
    }
}

/// What is held at a stage.
spec fn held_at(stage: StageView, replies: Seq<ReplyView>) -> Set<Resource> {
    match stage {
        StageView::Process { .. } => Set::empty(),
        StageView::Count { result } => set![Resource::Diarization { address: result }],
        StageView::Sort { result, .. } => set![Resource::Diarization { address: result }],
        StageView::Read { result, list, .. } => set![
            Resource::Diarization { address: result },
            Resource::SegmentList { address: list },
        ],
        StageView::Fetch { work } => set![
            Resource::Diarization { address: work.result },
            Resource::SegmentList { address: work.list },
        ],
        StageView::Copy { work, embedding, .. } => set![
            Resource::Diarization { address: work.result },
            Resource::SegmentList { address: work.list },
            Resource::Embedding { address: embedding },
        ],
        StageView::Free { work, embedding } => set![
            Resource::Diarization { address: work.result },
            Resource::SegmentList { address: work.list },
            Resource::Embedding { address: embedding },
        ],
        StageView::DestroySegments { result, list, .. } => set![
            Resource::Diarization { address: result },
            Resource::SegmentList { address: list },
        ],
        StageView::DestroyResult { result, .. } => set![Resource::Diarization { address: result }],
        StageView::Done { outcome: Ok(_) } => Set::empty(),
        StageView::Done { outcome: Err(_) } => brought_by(replies[0]).union(brought_by(replies[2])),
    }
}

/// A computation that starts well-formed stays so, keeps its choice about
/// embeddings, and has made as many calls as it was given answers.
proof fn lemma_reached(c: ComputationView, replies: Seq<ReplyView>)
    requires
        c.wf(),
        c.accepts_all(replies),
    ensures
        c.after(replies).wf(),
        c.after(replies).extract == c.extract,
        c.calls(replies).len() == replies.len(),
    decreases replies.len(),
{
    if replies.len() > 0 {
        lemma_reached(c, replies.drop_last());
        crate::diarize::computation::lemma_next_wf(c.after(replies.drop_last()), replies.last());
    }
}

/// The stage that is reached follows from the first answers.
proof fn lemma_opened(c: ComputationView, replies: Seq<ReplyView>)
    requires
        c.stage is Process,
        c.accepts_all(replies),
    ensures
        opened(c.after(replies).stage, replies),
    decreases replies.len(),
{
    if replies.len() > 0 {
        let before = replies.drop_last();
        lemma_opened(c, before);
        lemma_reached(c, before);
        assert(replies == before.push(replies.last()));
        crate::diarize::computation::lemma_next_wf(c.after(before), replies.last());
    }
}

/// What is held follows from the stage.
proof fn lemma_held(c: ComputationView, replies: Seq<ReplyView>)
    requires
        c.stage is Process,
        c.accepts_all(replies),
    ensures
        c.held(replies) == held_at(c.after(replies).stage, replies),
    decreases replies.len(),
{
    if replies.len() > 0 {
        let before = replies.drop_last();
        lemma_held(c, before);
        lemma_reached(c, before);
        lemma_opened(c, before);
        lemma_opened(c, replies);
        assert(c.held(replies) =~= held_at(c.after(replies).stage, replies));
    }
}

/// A call is the one that was next after the answers before it.
proof fn lemma_call(c: ComputationView, replies: Seq<ReplyView>, i: int)
    requires
        c.accepts_all(replies),
        0 <= i < replies.len(),
    ensures
        c.accepts_all(replies.take(i)),
        c.accepts_all(replies.take(i + 1)),
        c.after(replies.take(i)).accepts(replies[i]),
        c.after(replies.take(i + 1)) == c.after(replies.take(i)).next(replies[i]),
        c.calls(replies).len() == replies.len(),
        c.after(replies.take(i)).action() == Some(c.calls(replies)[i]),
    decreases replies.len(),
{
    let before = replies.drop_last();
    if i < before.len() {
        lemma_call(c, before, i);
        assert(before.take(i) =~= replies.take(i));
        assert(before.take(i + 1) =~= replies.take(i + 1));
    } else {
        assert(replies.take(i) =~= before);
        assert(replies.take(i + 1) =~= replies);
        if before.len() > 0 {
            lemma_call(c, before, 0);
        }
    }
}

/// The calls before the last answer are the same without it.
proof fn lemma_asked_before(c: ComputationView, replies: Seq<ReplyView>)
    requires
        c.accepts_all(replies),
        replies.len() > 0,
    ensures
        forall|i: int, k: i32|
            i < replies.len() - 1 ==> #[trigger] c.asked(replies, i, k) == c.asked(
                replies.drop_last(),
                i,
                k,
            ),
        forall|i: int, k: i32|
            i < replies.len() - 1 ==> #[trigger] c.given(replies, i, k) == c.given(
                replies.drop_last(),
                i,
                k,
            ),
        c.calls(replies).len() == replies.len(),
        c.calls(replies).last() == c.after(replies.drop_last()).action().unwrap(),
{
    lemma_call(c, replies, 0);
    assert(c.calls(replies).drop_last() =~= c.calls(replies.drop_last()));
}

/// Whether each embedding that was given has been collected, or is just being
/// copied.
spec fn collected(c: ComputationView, replies: Seq<ReplyView>) -> bool {
    let s = c.after(replies);
    forall|i: int, k: i32| #[trigger]
        c.given(replies, i, k) ==> {
            ||| {
                &&& i + 1 < replies.len()
                &&& s.embeddings().contains_key(k)
                &&& replies[i + 1] == (ReplyView::Copied { coordinates: s.embeddings()[k] })
            }
            ||| {
                &&& i + 1 == replies.len()
                &&& s.stage matches StageView::Copy { work, .. }
                &&& work.speaker() == k
            }
        }
}

/// Whether each embedding that was collected had been given.
spec fn accounted(c: ComputationView, replies: Seq<ReplyView>) -> bool {
    let s = c.after(replies);
    &&& forall|k: i32| #[trigger]
        s.embeddings().contains_key(k) ==> c.was_given(replies, k)
    &&& s.stage matches StageView::Copy { work, .. } ==> c.given(
        replies,
        replies.len() - 1,
        work.speaker(),
    )
}

/// Whether the embedding of each speaker that was dealt with had been asked for.
spec fn covered(c: ComputationView, replies: Seq<ReplyView>) -> bool {
    let s = c.after(replies);
    &&& s.segments() matches Some(segments) ==> c.extract ==> forall|p: int|
        0 <= p < s.dealt_with() ==> c.was_asked(replies, (#[trigger] segments[p]).speaker)
    &&& s.stage matches StageView::Copy { work, .. } ==> c.was_asked(replies, work.speaker())
    &&& s.stage matches StageView::Free { work, .. } ==> c.was_asked(replies, work.speaker())
}

/// Each embedding that was given is collected.
proof fn lemma_collected(c: ComputationView, replies: Seq<ReplyView>)
    requires
        c.stage is Process,
        c.accepts_all(replies),
    ensures
        collected(c, replies),
    decreases replies.len(),
{
    if replies.len() > 0 {
        let before = replies.drop_last();
        lemma_collected(c, before);
        lemma_reached(c, before);
        lemma_asked_before(c, replies);
        assert forall|i: int, k: i32| #[trigger] c.given(replies, i, k) implies {
            let s = c.after(replies);
            ||| {
                &&& i + 1 < replies.len()
                &&& s.embeddings().contains_key(k)
                &&& replies[i + 1] == (ReplyView::Copied { coordinates: s.embeddings()[k] })
            }
            ||| {
                &&& i + 1 == replies.len()
                &&& s.stage matches StageView::Copy { work, .. }
                &&& work.speaker() == k
            }
        } by {
            if i < before.len() {
                assert(c.given(before, i, k));
            }
        }
    }
}

/// Each embedding that was collected had been given.
proof fn lemma_accounted(c: ComputationView, replies: Seq<ReplyView>)
    requires
        c.stage is Process,
        c.accepts_all(replies),
    ensures
        accounted(c, replies),
    decreases replies.len(),
{
    if replies.len() > 0 {
        let before = replies.drop_last();
        lemma_accounted(c, before);
        lemma_reached(c, before);
        lemma_asked_before(c, replies);
        let s = c.after(replies);
        let b = c.after(before);
        assert forall|k: i32| #[trigger] s.embeddings().contains_key(k) implies c.was_given(
            replies,
            k,
        ) by {
            if b.embeddings().contains_key(k) {
                let i = choose|i: int| #[trigger] c.given(before, i, k);
                assert(c.given(replies, i, k));
            } else {
                assert(b.stage is Copy);
                assert(c.given(before, before.len() - 1, k));
                assert(c.given(replies, before.len() - 1, k));
            }
        }
        if s.stage is Copy {
            assert(c.given(replies, replies.len() - 1, b.stage->Fetch_work.speaker()));
        }
    }
}

/// The embedding of each speaker that was dealt with had been asked for.
proof fn lemma_covered(c: ComputationView, replies: Seq<ReplyView>)
    requires
        c.stage is Process,
        c.accepts_all(replies),
    ensures
        covered(c, replies),
    decreases replies.len(),
{
    if replies.len() > 0 {
        let before = replies.drop_last();
        lemma_covered(c, before);
        lemma_accounted(c, replies);
        lemma_reached(c, before);
        lemma_reached(c, replies);
        lemma_asked_before(c, replies);
        let s = c.after(replies);
        let b = c.after(before);
        assert forall|k: i32| #[trigger] c.was_asked(before, k) implies c.was_asked(replies, k) by {
            let i = choose|i: int| #[trigger] c.asked(before, i, k);
            assert(c.asked(replies, i, k));
        }
        if b.stage is Fetch {
            assert(c.asked(replies, before.len() as int, b.stage->Fetch_work.speaker()));
        }
        if let Some(segments) = s.segments() {
            if c.extract {
                match b.stage {
                    StageView::Read { .. } => {
                        crate::diarize::computation::lemma_next_missing(
                            segments,
                            Map::<i32, Seq<Float32>>::empty().dom(),
                            0,
                        );
                    },
                    StageView::Fetch { work } => {
                        crate::diarize::computation::lemma_next_missing(
                            segments,
                            work.embeddings.dom(),
                            work.position + 1,
                        );
                    },
                    StageView::Free { work, .. } => {
                        crate::diarize::computation::lemma_next_missing(
                            segments,
                            work.embeddings.dom(),
                            work.position + 1,
                        );
                    },
                    _ => {},
                }
                assert forall|p: int| 0 <= p < s.dealt_with() implies c.was_asked(
                    replies,
                    (#[trigger] segments[p]).speaker,
                ) by {
                    let k = segments[p].speaker;
                    if s.embeddings().contains_key(k) {
                        let i = choose|i: int| #[trigger] c.given(replies, i, k);
                        assert(c.asked(replies, i, k));
                    }
                }
            }
        }
    }
}

/// What is known of a computation just before its call `i` is answered.
proof fn lemma_at(c: ComputationView, replies: Seq<ReplyView>, i: int)
    requires
        c.fresh(),
        c.accepts_all(replies),
        0 <= i < replies.len(),
    ensures
        c.calls(replies).len() == replies.len(),
        c.accepts_all(replies.take(i)),
        c.after(replies.take(i)).wf(),
        c.after(replies.take(i)).extract == c.extract,
        opened(c.after(replies.take(i)).stage, replies.take(i)),
        c.after(replies.take(i)).accepts(replies[i]),
        c.after(replies.take(i)).action() == Some(c.calls(replies)[i]),
{
    lemma_call(c, replies, i);
    lemma_opened(c, replies.take(i));
    lemma_reached(c, replies.take(i));
}

/// A computation begins by processing the samples, counting the segments of the
/// result, sorting them, and reading that many from the list.
pub proof fn law_opening_calls(c: ComputationView, replies: Seq<ReplyView>)
    requires
        c.fresh(),
        c.accepts_all(replies),
    ensures
        c.calls(replies).len() == replies.len(),
        replies.len() > 0 ==> Some(c.calls(replies)[0]) == c.action(),
        replies.len() > 1 ==> (replies[0] matches ReplyView::Processed { result }
            && c.calls(replies)[1] == (Action::CountSegments { result })),
        replies.len() > 2 ==> (replies[0] matches ReplyView::Processed { result }
            && c.calls(replies)[2] == (Action::SortSegments { result })),
        replies.len() > 3 ==> (replies[1] matches ReplyView::Counted { num_segments }
            && replies[2] matches ReplyView::Sorted { list } && num_segments > 0 && list != 0
            && c.calls(replies)[3] == (Action::ReadSegments {
            list,
            count: num_segments as usize,
        })),
{
    lemma_reached(c, replies);
    if replies.len() > 0 {
        lemma_at(c, replies, 0);
    }
    if replies.len() > 1 {
        lemma_at(c, replies, 1);
    }
    if replies.len() > 2 {
        lemma_at(c, replies, 2);
    }
    if replies.len() > 3 {
        lemma_at(c, replies, 3);
    }
}

/// A computation fails exactly if the engine counts no segments or gives no list
/// of them. Otherwise it finds just the segments that were read, in their order,
/// as many as were counted.
pub proof fn law_outcome(
    c: ComputationView,
    replies: Seq<ReplyView>,
    outcome: Result<DiarizationView, DiarizeError>,
)
    requires
        c.ends_with(replies, outcome),
    ensures
        replies.len() >= 3,
        replies[1] matches ReplyView::Counted { num_segments }
            && replies[2] matches ReplyView::Sorted { list } && (outcome is Err <==> num_segments
            <= 0 || list == 0),
        outcome matches Err(e) ==> e == DiarizeError::NoSegments && replies.len() == 3,
        outcome matches Ok(found) ==> replies.len() > 3 && replies[3] == (ReplyView::Read {
            segments: found.segments,
        }) && replies[1] == (ReplyView::Counted { num_segments: found.segments.len() as i32 })
            && found.wf(),
{
    lemma_opened(c, replies);
    lemma_reached(c, replies);
}

/// Every call works only on what the engine has given and what has not been
/// released yet. In particular nothing is released twice.
pub proof fn law_no_use_after_release(c: ComputationView, replies: Seq<ReplyView>, action: Action)
    requires
        c.fresh(),
        c.accepts_all(replies),
        c.after(replies).action() == Some(action),
    ensures
        used_by(action).subset_of(c.held(replies)),
{
    lemma_held(c, replies);
}

/// A computation that succeeds has released everything that the engine gave it,
/// the list of segments and then the result at the very end.
pub proof fn law_success_releases_everything(
    c: ComputationView,
    replies: Seq<ReplyView>,
    found: DiarizationView,
)
    requires
        c.ends_with(replies, Ok(found)),
    ensures
        c.held(replies) == Set::<Resource>::empty(),
        replies.len() >= 6,
        replies[2] matches ReplyView::Sorted { list } && c.calls(replies)[replies.len() - 2] == (
        Action::DestroySegments { list }),
        replies[0] matches ReplyView::Processed { result } && c.calls(replies)[replies.len() - 1]
            == (Action::DestroyResult { result }),
{
    lemma_held(c, replies);
    lemma_opened(c, replies);
    let n = replies.len() as int;
    lemma_call(c, replies, n - 1);
    assert(replies.take(n) =~= replies);
    lemma_opened(c, replies.take(n - 1));
    lemma_call(c, replies, n - 2);
    lemma_opened(c, replies.take(n - 2));
}

/// A computation that fails releases neither the result nor the list of segments.
pub proof fn law_failure_releases_nothing(
    c: ComputationView,
    replies: Seq<ReplyView>,
    error: DiarizeError,
)
    requires
        c.ends_with(replies, Err(error)),
    ensures
        c.held(replies) == brought_by(replies[0]).union(brought_by(replies[2])),
        replies[0] matches ReplyView::Processed { result } && c.held(replies).contains(
            Resource::Diarization { address: result },
        ),
        replies[2] matches ReplyView::Sorted { list } && (list != 0 ==> c.held(replies).contains(
            Resource::SegmentList { address: list },
        )),
{
    lemma_held(c, replies);
    lemma_opened(c, replies);
}

/// An embedding is released by the call after the one that copies it.
pub proof fn law_copied_then_freed(
    c: ComputationView,
    replies: Seq<ReplyView>,
    i: int,
    address: usize,
    length: usize,
)
    requires
        c.fresh(),
        c.accepts_all(replies),
        0 <= i,
        i + 1 < replies.len(),
        c.calls(replies)[i] == (Action::CopyEmbedding { embedding: address, len: length }),
    ensures
        c.calls(replies)[i + 1] == (Action::FreeEmbedding { embedding: address }),
{
    lemma_call(c, replies, i);
    lemma_call(c, replies, i + 1);
}

/// Where embeddings are not to be extracted, none is asked for, and none is found.
pub proof fn law_no_extraction(c: ComputationView, replies: Seq<ReplyView>)
    requires
        c.fresh(),
        c.accepts_all(replies),
        !c.extract,
    ensures
        forall|k: i32| !#[trigger] c.was_asked(replies, k),
        c.after(replies).embeddings() == Map::<i32, Seq<Float32>>::empty(),
{
    lemma_reached(c, replies);
    assert forall|k: i32| !#[trigger] c.was_asked(replies, k) by {
        if c.was_asked(replies, k) {
            let i = choose|i: int| #[trigger] c.asked(replies, i, k);
            lemma_call(c, replies, i);
            lemma_reached(c, replies.take(i));
        }
    }
}

/// Embeddings are asked for only of the result, after the segments were read, and
/// only for the speakers of those segments.
pub proof fn law_asked_for_speakers(
    c: ComputationView,
    replies: Seq<ReplyView>,
    i: int,
    speaker: i32,
)
    requires
        c.fresh(),
        c.accepts_all(replies),
        c.asked(replies, i, speaker),
    ensures
        c.extract,
        i >= 4,
        replies[0] matches ReplyView::Processed { result } && c.calls(replies)[i] == (
        Action::FetchEmbedding { result, speaker }),
        replies[3] matches ReplyView::Read { segments } && crate::diarize::segments::one_by(
            segments,
            speaker,
        ),
{
    lemma_at(c, replies, i);
    let work = c.after(replies.take(i)).stage->Fetch_work;
    assert(replies[3] == (ReplyView::Read { segments: work.segments }));
    assert(work.segments[work.position].speaker == speaker);
    assert(crate::diarize::segments::one_by(work.segments, speaker));
}

/// The segment whose speaker's embedding call `i` asked for.
pub open spec fn segment_at(c: ComputationView, replies: Seq<ReplyView>, i: int) -> int {
    c.after(replies.take(i)).stage->Fetch_work.position
}

/// The segments dealt with by earlier requests come before the present one.
proof fn lemma_in_order(c: ComputationView, replies: Seq<ReplyView>, i: int, speaker: i32)
    requires
        c.fresh(),
        c.accepts_all(replies),
        c.asked(replies, i, speaker),
    ensures
        c.after(replies).stage matches StageView::Fetch { work } ==> segment_at(c, replies, i)
            < work.position,
        c.after(replies).stage matches StageView::Copy { work, .. } ==> segment_at(c, replies, i)
            <= work.position,
        c.after(replies).stage matches StageView::Free { work, .. } ==> segment_at(c, replies, i)
            <= work.position,
    decreases replies.len(),
{
    let before = replies.drop_last();
    lemma_at(c, replies, i);
    lemma_reached(c, before);
    lemma_asked_before(c, replies);
    assert(before.take(i) =~= replies.take(i));
    if i < before.len() {
        lemma_in_order(c, before, i, speaker);
    } else {
        assert(before =~= replies.take(i));
    }
    match c.after(before).stage {
        StageView::Fetch { work } => {
            crate::diarize::computation::lemma_next_missing(
                work.segments,
                work.embeddings.dom(),
                work.position + 1,
            );
        },
        StageView::Free { work, .. } => {
            crate::diarize::computation::lemma_next_missing(
                work.segments,
                work.embeddings.dom(),
                work.position + 1,
            );
        },
        StageView::Read { .. } => {
            lemma_opened(c, before);
            law_asked_for_speakers(c, replies, i, speaker);
        },
        _ => {},
    }
}

/// Embeddings are asked for in the order of the segments, at most once for each
/// segment: a later request is for the speaker of a later segment.
pub proof fn law_asked_in_order(
    c: ComputationView,
    replies: Seq<ReplyView>,
    i: int,
    first: i32,
    j: int,
    second: i32,
)
    requires
        c.fresh(),
        c.accepts_all(replies),
        c.asked(replies, i, first),
        c.asked(replies, j, second),
        i < j,
    ensures
        replies[3] matches ReplyView::Read { segments } && exists|p: int, q: int|
            0 <= p < q < segments.len() && (#[trigger] segments[p]).speaker == first && (
            #[trigger] segments[q]).speaker == second,
{
    let earlier = replies.take(j);
    lemma_at(c, replies, i);
    lemma_at(c, replies, j);
    lemma_at(c, earlier, i);
    assert(earlier.take(i) =~= replies.take(i));
    lemma_in_order(c, earlier, i, first);
    let segments = replies[3]->Read_segments;
    let p = segment_at(c, replies, i);
    let q = segment_at(c, replies, j);
    assert(segments[p].speaker == first);
    assert(segments[q].speaker == second);
}

/// Once a speaker's embedding has been given, it is not asked for again.
pub proof fn law_given_once(
    c: ComputationView,
    replies: Seq<ReplyView>,
    i: int,
    j: int,
    speaker: i32,
)
    requires
        c.fresh(),
        c.accepts_all(replies),
        c.given(replies, i, speaker),
        i < j,
    ensures
        !c.asked(replies, j, speaker),
{
    if c.asked(replies, j, speaker) {
        let earlier = replies.take(j);
        lemma_call(c, replies, i);
        lemma_call(c, replies, j);
        lemma_call(c, earlier, i);
        assert(earlier.take(i) =~= replies.take(i));
        lemma_collected(c, earlier);
        lemma_reached(c, earlier);
        assert(c.given(earlier, i, speaker));
    }
}

/// What is found has an embedding for exactly the speakers for whom the engine
/// gave one, and it is the one that was copied right after it was given.
pub proof fn law_embeddings(c: ComputationView, replies: Seq<ReplyView>, found: DiarizationView)
    requires
        c.ends_with(replies, Ok(found)),
    ensures
        forall|k: i32| #[trigger]
            found.embeddings.contains_key(k) <==> c.was_given(replies, k),
        forall|i: int, k: i32| #[trigger]
            c.given(replies, i, k) ==> i + 1 < replies.len() && replies[i + 1] == (
            ReplyView::Copied { coordinates: found.embeddings[k] }),
{
    lemma_collected(c, replies);
    lemma_accounted(c, replies);
    let s = c.after(replies);
    assert forall|k: i32| #[trigger]
        found.embeddings.contains_key(k) <==> c.was_given(replies, k) by {
        if found.embeddings.contains_key(k) {
            assert(s.embeddings().contains_key(k));
        }
    }
}

/// Where embeddings are to be extracted, the embedding of each speaker is asked
/// for. So a speaker is without one only if the engine gave none each time.
pub proof fn law_every_speaker_asked_for(
    c: ComputationView,
    replies: Seq<ReplyView>,
    found: DiarizationView,
    speaker: i32,
)
    requires
        c.ends_with(replies, Ok(found)),
        c.extract,
        found.speaks(speaker),
    ensures
        c.was_asked(replies, speaker),
        !found.embeddings.contains_key(speaker) ==> forall|i: int| #[trigger]
            c.asked(replies, i, speaker) ==> (replies[i] matches ReplyView::Fetched { embedding, .. }
                && embedding == 0),
{
    lemma_covered(c, replies);
    law_embeddings(c, replies, found);
    let p = choose|p: int|
        0 <= p < found.segments.len() && (#[trigger] found.segments[p]).speaker == speaker;
    assert(c.after(replies).segments() == Some(found.segments));
    assert(0 <= p < c.after(replies).dealt_with());
    assert(c.was_asked(replies, found.segments[p].speaker));
    assert forall|i: int| #[trigger]
        c.asked(replies, i, speaker) && !found.embeddings.contains_key(speaker) implies replies[i] matches ReplyView::Fetched {
        embedding,
        ..
    } && embedding == 0 by {
        lemma_call(c, replies, i);
        if !(replies[i] matches ReplyView::Fetched { embedding, .. } && embedding == 0) {
            assert(c.given(replies, i, speaker));
        }
    }
}

/// Whether the engine answers every request for an embedding from `store`, with
/// none for a speaker that is not in it.
pub open spec fn answered_from(
    c: ComputationView,
    replies: Seq<ReplyView>,
    store: Map<i32, Seq<Float32>>,
) -> bool {
    forall|i: int, k: i32| #[trigger]
        c.asked(replies, i, k) ==> {
            &&& c.given(replies, i, k) <==> store.contains_key(k)
            &&& c.given(replies, i, k) && i + 1 < replies.len() ==> replies[i + 1] == (
            ReplyView::Copied { coordinates: store[k] })
        }
}

/// From an engine that always gives the same embedding for the same speaker, all
/// embeddings of speakers of segments are collected, and no others.
pub proof fn law_embeddings_of_speakers(
    c: ComputationView,
    replies: Seq<ReplyView>,
    found: DiarizationView,
    store: Map<i32, Seq<Float32>>,
)
    requires
        c.ends_with(replies, Ok(found)),
        c.extract,
        answered_from(c, replies, store),
    ensures
        found.embeddings == store.restrict(Set::new(|k: i32| found.speaks(k))),
{
    lemma_reached(c, replies);
    law_embeddings(c, replies, found);
    let expected = store.restrict(Set::new(|k: i32| found.speaks(k)));
    assert forall|k: i32| #[trigger]
        found.embeddings.contains_key(k) == expected.contains_key(k) by {
        if found.embeddings.contains_key(k) {
            let i = choose|i: int| #[trigger] c.given(replies, i, k);
            assert(c.asked(replies, i, k));
        }
        if expected.contains_key(k) {
            law_every_speaker_asked_for(c, replies, found, k);
            let i = choose|i: int| #[trigger] c.asked(replies, i, k);
            assert(c.given(replies, i, k));
        }
    }
    assert forall|k: i32| #[trigger] found.embeddings.contains_key(k) implies found.embeddings[k]
        == expected[k] by {
        let i = choose|i: int| #[trigger] c.given(replies, i, k);
        assert(c.asked(replies, i, k));
    }
    assert(found.embeddings =~= expected);
}

/// The answers so far and those still to come are bounded by the segments.
proof fn lemma_remaining(c: ComputationView, replies: Seq<ReplyView>)
    requires
        c.fresh(),
        c.accepts_all(replies),
        replies.len() > 3,
    ensures
        replies[3] matches ReplyView::Read { segments } && replies.len() + c.after(
            replies,
        ).remaining() <= 6 + 3 * segments.len(),
        c.after(replies).remaining() >= 0,
    decreases replies.len(),
{
    let before = replies.drop_last();
    lemma_opened(c, before);
    lemma_opened(c, replies);
    lemma_reached(c, before);
    lemma_reached(c, replies);
    if before.len() > 3 {
        lemma_remaining(c, before);
        assert(replies[3] == before[3]);
    }
    match c.after(before).stage {
        StageView::Fetch { work } => {
            crate::diarize::computation::lemma_next_missing(
                work.segments,
                work.embeddings.dom(),
                work.position + 1,
            );
        },
        StageView::Free { work, .. } => {
            crate::diarize::computation::lemma_next_missing(
                work.segments,
                work.embeddings.dom(),
                work.position + 1,
            );
        },
        _ => {},
    }
}

/// A computation ends: after the four answers that bring the segments, there are
/// at most three for each segment and two more.
pub proof fn law_ends(c: ComputationView, replies: Seq<ReplyView>)
    requires
        c.fresh(),
        c.accepts_all(replies),
        replies.len() > 3,
    ensures
        replies[3] matches ReplyView::Read { segments } && replies.len() <= 6 + 3 * segments.len(),
{
    lemma_remaining(c, replies);
}

/// A computation is never stuck: as long as there is a call to make, some answer
/// to it is accepted.
pub proof fn law_never_stuck(c: ComputationView, replies: Seq<ReplyView>)
    requires
        c.fresh(),
        c.accepts_all(replies),
    ensures
        c.after(replies).action() is Some <==> exists|reply: ReplyView| #[trigger]
            c.after(replies).accepts(reply),
{
    lemma_reached(c, replies);
    let s = c.after(replies);
    match s.stage {
        StageView::Process { .. } => assert(s.accepts(ReplyView::Processed { result: 0 })),
        StageView::Count { .. } => assert(s.accepts(ReplyView::Counted { num_segments: 0 })),
        StageView::Sort { .. } => assert(s.accepts(ReplyView::Sorted { list: 0 })),
        StageView::Read { num_segments, .. } => {
            let segment = Segment {
                start: Float32 { bits: 0 },
                end: Float32 { bits: 0 },
                speaker: 0,
            };
            let segments = Seq::new(num_segments as nat, |i: int| segment);
            assert(s.accepts(ReplyView::Read { segments }));
        },
        StageView::Fetch { .. } => assert(s.accepts(ReplyView::Fetched { embedding: 0, len: 0 })),
        StageView::Copy { len, .. } => {
            let coordinates = Seq::new(len as nat, |i: int| Float32 { bits: 0 });
            assert(s.accepts(ReplyView::Copied { coordinates }));
        },
        StageView::Free { .. } => assert(s.accepts(ReplyView::Released)),
        StageView::DestroySegments { .. } => assert(s.accepts(ReplyView::Released)),
        StageView::DestroyResult { .. } => assert(s.accepts(ReplyView::Released)),
        StageView::Done { .. } => {},
    }
}

/// Leaving settings open is the same as giving their values in the default
/// configuration.
pub proof fn law_open_settings_take_defaults(
    engine: OfflineSpeakerDiarizationConfig,
    segmentation_model: Seq<char>,
    embedding_model: Seq<char>,
    config: DiarizeConfig,
    default_provider: Seq<char>,
    default: DiarizeConfig,
)
    requires
        default.is_default(),
    ensures
        engine.resolves(segmentation_model, embedding_model, config, default_provider)
            <==> engine.resolves(
            segmentation_model,
            embedding_model,
            config.filled_from(default),
            default_provider,
        ),
{
}

/// A provider that is named is used, whatever the default; and naming the default
/// provider is the same as naming none.
pub proof fn law_provider(
    engine: OfflineSpeakerDiarizationConfig,
    segmentation_model: Seq<char>,
    embedding_model: Seq<char>,
    config: DiarizeConfig,
    default_provider: String,
    other: Seq<char>,
)
    ensures
        config.provider is Some ==> (engine.resolves(
            segmentation_model,
            embedding_model,
            config,
            default_provider@,
        ) <==> engine.resolves(segmentation_model, embedding_model, config, other)),
        config.provider is None ==> (engine.resolves(
            segmentation_model,
            embedding_model,
            config,
            default_provider@,
        ) <==> engine.resolves(
            segmentation_model,
            embedding_model,
            DiarizeConfig { provider: Some(default_provider), ..config },
            other,
        )),
{
}

/// A count that fits into a C `int` is passed on unchanged; any other is passed on
/// as the one that is congruent to it modulo 2^32.
pub proof fn law_wrapped(n: int)
    ensures
        i32::MIN <= crate::diarize::c_int::wrapped(n) <= i32::MAX,
        i32::MIN <= n <= i32::MAX ==> crate::diarize::c_int::wrapped(n) == n,
        (n - crate::diarize::c_int::wrapped(n)) % 0x1_0000_0000 == 0,
{
}

/// A computation of `n` samples begins by handing all of them to its engine, with
/// a callback exactly if there is one. A number of samples that fits into a C
/// `int` is handed over as it is, any other modulo 2^32.
pub proof fn law_first_call(
    sd: usize,
    extract: bool,
    n: usize,
    with_callback: bool,
    replies: Seq<ReplyView>,
)
    requires
        ComputationView::start(sd, extract, n as int, with_callback).accepts_all(replies),
    ensures
        ComputationView::start(sd, extract, n as int, with_callback).fresh(),
        ComputationView::start(sd, extract, n as int, with_callback).extract == extract,
        ComputationView::start(sd, extract, n as int, with_callback).action() matches Some(
            Action::Process { sd: engine, num_samples, with_callback: told },
        ) && engine == sd && told == with_callback && (n <= i32::MAX ==> num_samples == n) && (n
            - num_samples) % 0x1_0000_0000 == 0,
        replies.len() > 0 ==> (ComputationView::start(
            sd,
            extract,
            n as int,
            with_callback,
        ).calls(replies)[0] matches Action::Process { sd: engine, num_samples, with_callback: told }
            && engine == sd && told == with_callback && (n <= i32::MAX ==> num_samples == n)),
{
    let c = ComputationView::start(sd, extract, n as int, with_callback);
    law_wrapped(n as int);
    law_opening_calls(c, replies);
}

/// An answer of the kind that the call is for is always taken, whatever it says,
/// as long as a list or an embedding has the length that was asked for and no
/// embedding has a negative length. Nothing else is taken, and nothing at all once
/// there is an outcome.
pub proof fn law_fitting_answers_are_taken(
    c: ComputationView,
    replies: Seq<ReplyView>,
    reply: ReplyView,
)
    requires
        c.fresh(),
        c.accepts_all(replies),
    ensures
        c.accepts_all(replies.push(reply)) <==> (match (c.after(replies).action(), reply) {
            (Some(Action::Process { .. }), ReplyView::Processed { .. }) => true,
            (Some(Action::CountSegments { .. }), ReplyView::Counted { .. }) => true,
            (Some(Action::SortSegments { .. }), ReplyView::Sorted { .. }) => true,
            (Some(Action::ReadSegments { count, .. }), ReplyView::Read { segments }) => count
                == segments.len(),
            (
                Some(Action::FetchEmbedding { .. }),
                ReplyView::Fetched { embedding, len },
            ) => embedding == 0 || len >= 0,
            (Some(Action::CopyEmbedding { len, .. }), ReplyView::Copied { coordinates }) => len
                == coordinates.len(),
            (Some(Action::FreeEmbedding { .. }), ReplyView::Released) => true,
            (Some(Action::DestroySegments { .. }), ReplyView::Released) => true,
            (Some(Action::DestroyResult { .. }), ReplyView::Released) => true,
            _ => false,
        }),
{
    lemma_reached(c, replies);
    assert(replies.push(reply).drop_last() =~= replies);
}

/// What follows an answer: the result is counted and sorted; the list is read in
/// full, or the computation fails if there is nothing to read; an embedding is
/// copied in full and then freed; the list is released before the result; and that
/// is the end.
pub proof fn law_next_call(c: ComputationView, replies: Seq<ReplyView>, reply: ReplyView)
    requires
        c.fresh(),
        c.accepts_all(replies.push(reply)),
    ensures
        match (c.after(replies).action(), reply) {
            (Some(Action::Process { .. }), ReplyView::Processed { result }) => c.after(
                replies.push(reply),
            ).action() == Some(Action::CountSegments { result }),
            (Some(Action::CountSegments { result }), ReplyView::Counted { .. }) => c.after(
                replies.push(reply),
            ).action() == Some(Action::SortSegments { result }),
            (Some(Action::SortSegments { .. }), ReplyView::Sorted { list }) => {
                &&& replies.len() == 2
                &&& replies[1] matches ReplyView::Counted { num_segments }
                &&& if list != 0 && num_segments > 0 {
                    c.after(replies.push(reply)).action() matches Some(
                        Action::ReadSegments { list: l, count },
                    ) && l == list && count == num_segments
                } else {
                    c.after(replies.push(reply)).stage == (StageView::Done {
                        outcome: Err(DiarizeError::NoSegments),
                    })
                }
            },
            (Some(Action::ReadSegments { list, .. }), ReplyView::Read { segments }) => {
                &&& replies[0] matches ReplyView::Processed { result }
                &&& segments.len() > 0
                &&& c.after(replies.push(reply)).action() == if c.extract {
                    Some(Action::FetchEmbedding { result, speaker: segments[0].speaker })
                } else {
                    Some(Action::DestroySegments { list })
                }
            },
            (Some(Action::FetchEmbedding { .. }), ReplyView::Fetched { embedding, len }) => {
                if embedding != 0 {
                    c.after(replies.push(reply)).action() matches Some(
                        Action::CopyEmbedding { embedding: e, len: n },
                    ) && e == embedding && n == len
                } else {
                    &&& replies[2] matches ReplyView::Sorted { list }
                    &&& c.after(replies.push(reply)).action() is Some
                    &&& c.after(replies.push(reply)).action() == Some(
                        Action::DestroySegments { list },
                    ) || c.after(replies.push(reply)).action()->0 is FetchEmbedding
                }
            },
            (Some(Action::CopyEmbedding { embedding, .. }), ReplyView::Copied { .. }) => c.after(
                replies.push(reply),
            ).action() == Some(Action::FreeEmbedding { embedding }),
            (Some(Action::FreeEmbedding { .. }), ReplyView::Released) => {
                &&& replies[2] matches ReplyView::Sorted { list }
                &&& c.after(replies.push(reply)).action() is Some
                &&& c.after(replies.push(reply)).action() == Some(
                    Action::DestroySegments { list },
                ) || c.after(replies.push(reply)).action()->0 is FetchEmbedding
            },
            (Some(Action::DestroySegments { .. }), ReplyView::Released) => {
                &&& replies[0] matches ReplyView::Processed { result }
                &&& c.after(replies.push(reply)).action() == Some(Action::DestroyResult { result })
            },
            (Some(Action::DestroyResult { .. }), ReplyView::Released) => c.after(
                replies.push(reply),
            ).stage matches StageView::Done { outcome: Ok(_) },
            _ => false,
        },
{
    assert(replies.push(reply).drop_last() =~= replies);
    lemma_reached(c, replies);
    lemma_opened(c, replies);
    lemma_opened(c, replies.push(reply));
}

/// An embedding that the engine gives for a speaker, at some address and of some
/// length, is copied from that address by the next call, at its full length; it is
/// the one that is found for that speaker; and it is freed by the call after that.
pub proof fn law_embedding_in_full(
    c: ComputationView,
    replies: Seq<ReplyView>,
    found: DiarizationView,
    i: int,
    result: usize,
    speaker: i32,
    embedding: usize,
    len: i32,
)
    requires
        c.ends_with(replies, Ok(found)),
        0 <= i < replies.len(),
        c.calls(replies)[i] == (Action::FetchEmbedding { result, speaker }),
        replies[i] == (ReplyView::Fetched { embedding, len }),
        embedding != 0,
    ensures
        i + 2 < replies.len(),
        len >= 0,
        c.calls(replies)[i + 1] == (Action::CopyEmbedding { embedding, len: len as usize }),
        c.calls(replies)[i + 2] == (Action::FreeEmbedding { embedding }),
        found.embeddings.contains_key(speaker),
        found.embeddings[speaker].len() == len,
        replies[i + 1] == (ReplyView::Copied { coordinates: found.embeddings[speaker] }),
{
    lemma_call(c, replies, i);
    assert(c.given(replies, i, speaker));
    law_embeddings(c, replies, found);
    assert(c.was_given(replies, speaker));
    lemma_call(c, replies, i + 1);
    if i + 2 == replies.len() {
        assert(replies.take(i + 2) =~= replies);
    } else {
        lemma_call(c, replies, i + 2);
    }
}

/// An embedding is found only for a speaker for whom the engine gave one when it
/// was asked.
pub proof fn law_found_embedding_was_given(
    c: ComputationView,
    replies: Seq<ReplyView>,
    found: DiarizationView,
    speaker: i32,
)
    requires
        c.ends_with(replies, Ok(found)),
        found.embeddings.contains_key(speaker),
    ensures
        exists|i: int|
            {
                &&& 0 <= i < replies.len()
                &&& #[trigger] c.calls(replies)[i] matches Action::FetchEmbedding { speaker: k, .. }
                &&& k == speaker
                &&& replies[i] matches ReplyView::Fetched { embedding, .. }
                &&& embedding != 0
            },
{
    law_embeddings(c, replies, found);
    let i = choose|i: int| #[trigger] c.given(replies, i, speaker);
    assert(c.calls(replies)[i] is FetchEmbedding);
}

/// Whether the embedding of the speaker of segment `p` was asked for there, or had
/// been given at an earlier segment.
spec fn settled(
    c: ComputationView,
    replies: Seq<ReplyView>,
    segments: Seq<Segment>,
    p: int,
) -> bool {
    exists|i: int| #[trigger]
        c.asked(replies, i, segments[p].speaker) && (segment_at(c, replies, i) == p || segment_at(
            c,
            replies,
            i,
        ) < p && c.given(replies, i, segments[p].speaker))
}

/// Each segment that was dealt with is settled, and so is one that is being dealt
/// with.
proof fn lemma_settled(c: ComputationView, replies: Seq<ReplyView>, p: int)
    requires
        c.fresh(),
        c.accepts_all(replies),
        c.extract,
        c.after(replies).segments() is Some,
        0 <= p < c.after(replies).dealt_with() || (p == c.after(replies).dealt_with() && (c.after(
            replies,
        ).stage is Copy || c.after(replies).stage is Free)),
    ensures
        settled(c, replies, c.after(replies).segments()->0, p),
    decreases replies.len(),
{
    let before = replies.drop_last();
    let s = c.after(replies);
    let b = c.after(before);
    let segments = s.segments()->0;
    let k = segments[p].speaker;
    lemma_reached(c, before);
    lemma_reached(c, replies);
    lemma_asked_before(c, replies);
    match b.stage {
        StageView::Read { .. } => {
            crate::diarize::computation::lemma_next_missing(
                segments,
                Map::<i32, Seq<Float32>>::empty().dom(),
                0,
            );
        },
        StageView::Fetch { work } => {
            crate::diarize::computation::lemma_next_missing(
                segments,
                work.embeddings.dom(),
                work.position + 1,
            );
        },
        StageView::Free { work, .. } => {
            crate::diarize::computation::lemma_next_missing(
                segments,
                work.embeddings.dom(),
                work.position + 1,
            );
        },
        _ => {},
    }
    if b.segments() is Some && (p < b.dealt_with() || (p == b.dealt_with() && (b.stage is Copy
        || b.stage is Free))) {
        lemma_settled(c, before, p);
        let i = choose|i: int| #[trigger]
            c.asked(before, i, k) && (segment_at(c, before, i) == p || segment_at(c, before, i) < p
                && c.given(before, i, k));
        assert(before.take(i) =~= replies.take(i));
        assert(c.asked(replies, i, k));
        assert(c.given(replies, i, k) == c.given(before, i, k));
    } else if b.stage is Fetch && p == b.dealt_with() {
        let i = before.len() as int;
        assert(replies.take(i) =~= before);
        assert(c.asked(replies, i, k));
    } else {
        // A segment that was skipped, because its speaker's embedding is there.
        lemma_accounted(c, before);
        assert(b.embeddings().contains_key(k));
        let i = choose|i: int| #[trigger] c.given(before, i, k);
        lemma_in_order(c, before, i, k);
        assert(before.take(i) =~= replies.take(i));
        assert(c.asked(replies, i, k));
        assert(c.given(replies, i, k));
    }
}

/// Where embeddings are to be extracted, the engine is asked at every segment whose
/// speaker's embedding was not given at an earlier one.
pub proof fn law_no_segment_is_passed_over(
    c: ComputationView,
    replies: Seq<ReplyView>,
    found: DiarizationView,
    p: int,
)
    requires
        c.ends_with(replies, Ok(found)),
        c.extract,
        0 <= p < found.segments.len(),
    ensures
        exists|i: int|
            {
                &&& 0 <= i < replies.len()
                &&& #[trigger] c.calls(replies)[i] matches Action::FetchEmbedding { speaker, .. }
                &&& speaker == found.segments[p].speaker
                &&& {
                    ||| segment_at(c, replies, i) == p
                    ||| {
                        &&& segment_at(c, replies, i) < p
                        &&& replies[i] matches ReplyView::Fetched { embedding, .. }
                        &&& embedding != 0
                    }
                }
            },
{
    assert(c.after(replies).segments() == Some(found.segments));
    lemma_settled(c, replies, p);
    let k = found.segments[p].speaker;
    let i = choose|i: int| #[trigger]
        c.asked(replies, i, k) && (segment_at(c, replies, i) == p || segment_at(c, replies, i) < p
            && c.given(replies, i, k));
    assert(c.calls(replies)[i] is FetchEmbedding);
}

/// Where embeddings are to be extracted, the engine is asked segment by segment, in
/// their order, for the embedding of the segment's speaker, and not again after it
/// was given.
pub proof fn law_requests(c: ComputationView, replies: Seq<ReplyView>, found: DiarizationView)
    requires
        c.ends_with(replies, Ok(found)),
        c.extract,
    ensures
        replies[0] matches ReplyView::Processed { result } && forall|i: int|
            0 <= i < replies.len() && #[trigger] c.calls(replies)[i] is FetchEmbedding ==> 0
                <= segment_at(c, replies, i) < found.segments.len() && c.calls(replies)[i] == (
            Action::FetchEmbedding {
                result,
                speaker: found.segments[segment_at(c, replies, i)].speaker,
            }),
        forall|i: int, j: int|
            0 <= i < j < replies.len() && #[trigger] c.calls(replies)[i] is FetchEmbedding
                && #[trigger] c.calls(replies)[j] is FetchEmbedding ==> segment_at(c, replies, i)
                < segment_at(c, replies, j),
        forall|i: int, j: int|
            0 <= i < j < replies.len() && #[trigger] c.calls(replies)[i] is FetchEmbedding
                && #[trigger] c.calls(replies)[j] is FetchEmbedding && (
            replies[i] matches ReplyView::Fetched { embedding, .. } && embedding != 0)
                ==> c.calls(replies)[i]->FetchEmbedding_speaker != c.calls(
                replies,
            )[j]->FetchEmbedding_speaker,
{
    lemma_opened(c, replies);
    assert forall|i: int|
        0 <= i < replies.len() && #[trigger] c.calls(replies)[i] is FetchEmbedding implies 0
        <= segment_at(c, replies, i) < found.segments.len() && c.calls(replies)[i] == (
    Action::FetchEmbedding {
        result: replies[0]->Processed_result,
        speaker: found.segments[segment_at(c, replies, i)].speaker,
    }) by {
        lemma_at(c, replies, i);
    }
    assert forall|i: int, j: int|
        0 <= i < j < replies.len() && #[trigger] c.calls(replies)[i] is FetchEmbedding
            && #[trigger] c.calls(replies)[j] is FetchEmbedding implies segment_at(c, replies, i)
        < segment_at(c, replies, j) by {
        let earlier = replies.take(j);
        lemma_at(c, replies, i);
        lemma_at(c, replies, j);
        lemma_at(c, earlier, i);
        assert(earlier.take(i) =~= replies.take(i));
        lemma_in_order(c, earlier, i, c.calls(replies)[i]->FetchEmbedding_speaker);
    }
    assert forall|i: int, j: int|
        0 <= i < j < replies.len() && #[trigger] c.calls(replies)[i] is FetchEmbedding
            && #[trigger] c.calls(replies)[j] is FetchEmbedding && (
        replies[i] matches ReplyView::Fetched { embedding, .. } && embedding != 0) implies c.calls(
        replies,
    )[i]->FetchEmbedding_speaker != c.calls(replies)[j]->FetchEmbedding_speaker by {
        let k = c.calls(replies)[i]->FetchEmbedding_speaker;
        assert(c.given(replies, i, k));
        law_given_once(c, replies, i, j, k);
    }
}

/// Whatever segments the engine finds are found: for any number of them and any
/// list, these answers are all taken in turn, and where no embeddings are wanted
/// the outcome is just those segments.
pub proof fn law_segments_are_found(
    sd: usize,
    num_samples: usize,
    with_callback: bool,
    result: usize,
    list: usize,
    segments: Seq<Segment>,
)
    requires
        0 < segments.len() <= i32::MAX,
        list != 0,
    ensures
        ComputationView::start(sd, false, num_samples as int, with_callback).ends_with(
            seq![
                ReplyView::Processed { result },
                ReplyView::Counted { num_segments: segments.len() as i32 },
                ReplyView::Sorted { list },
                ReplyView::Read { segments },
                ReplyView::Released,
                ReplyView::Released,
            ],
            Ok(DiarizationView { segments, embeddings: Map::empty() }),
        ),
{
    let c = ComputationView::start(sd, false, num_samples as int, with_callback);
    let r0 = Seq::<ReplyView>::empty();
    let r1 = r0.push(ReplyView::Processed { result });
    let r2 = r1.push(ReplyView::Counted { num_segments: segments.len() as i32 });
    let r3 = r2.push(ReplyView::Sorted { list });
    let r4 = r3.push(ReplyView::Read { segments });
    let r5 = r4.push(ReplyView::Released);
    let r6 = r5.push(ReplyView::Released);
    assert(r1.drop_last() =~= r0);
    assert(r2.drop_last() =~= r1);
    assert(r3.drop_last() =~= r2);
    assert(r4.drop_last() =~= r3);
    assert(r5.drop_last() =~= r4);
    assert(r6.drop_last() =~= r5);
    reveal_with_fuel(ComputationView::accepts_all, 7);
    reveal_with_fuel(ComputationView::after, 7);
    assert(c.accepts_all(r6));
    assert(r6 =~= seq![
        ReplyView::Processed { result },
        ReplyView::Counted { num_segments: segments.len() as i32 },
        ReplyView::Sorted { list },
        ReplyView::Read { segments },
        ReplyView::Released,
        ReplyView::Released,
    ]);
}

/// An answer stands for just what it holds.
pub proof fn law_answers_are_taken_as_given(reply: Reply)
    ensures
        match reply {
            Reply::Processed { result } => reply@ == (ReplyView::Processed { result }),
            Reply::Counted { num_segments } => reply@ == (ReplyView::Counted { num_segments }),
            Reply::Sorted { list } => reply@ == (ReplyView::Sorted { list }),
            Reply::Read { segments } => reply@ == (ReplyView::Read { segments: segments@ }),
            Reply::Fetched { embedding, len } => reply@ == (ReplyView::Fetched { embedding, len }),
            Reply::Copied { coordinates } => reply@ == (ReplyView::Copied {
                coordinates: coordinates@,
            }),
            Reply::Released => reply@ == ReplyView::Released,
        },
{
}

/// Every setting that is given reaches the engine as it is. A number of threads
/// that does not fit into a C `int` reaches it modulo 2^32.
pub proof fn law_given_settings_reach_the_engine(
    engine: OfflineSpeakerDiarizationConfig,
    segmentation_model: Seq<char>,
    embedding_model: Seq<char>,
    config: DiarizeConfig,
    default_provider: Seq<char>,
)
    requires
        engine.resolves(segmentation_model, embedding_model, config, default_provider),
    ensures
        engine.segmentation.pyannote.model@ == segmentation_model,
        engine.embedding.model@ == embedding_model,
        config.num_clusters matches Some(n) ==> engine.clustering.num_clusters == n,
        config.threshold matches Some(t) ==> engine.clustering.threshold == t,
        config.min_duration_on matches Some(t) ==> engine.min_duration_on == t,
        config.min_duration_off matches Some(t) ==> engine.min_duration_off == t,
        config.provider matches Some(p) ==> engine.segmentation.provider@ == p@
            && engine.embedding.provider@ == p@,
        config.num_segmentation_model_threads matches Some(n) ==> (n <= i32::MAX
            ==> engine.segmentation.num_threads == n) && (n - engine.segmentation.num_threads)
            % 0x1_0000_0000 == 0,
        config.num_embedding_model_threads matches Some(n) ==> (n <= i32::MAX
            ==> engine.embedding.num_threads == n) && (n - engine.embedding.num_threads)
            % 0x1_0000_0000 == 0,
        config.debug <==> engine.segmentation.debug != 0,
        config.debug <==> engine.embedding.debug != 0,
        engine.segmentation.debug == 0 || engine.segmentation.debug == 1,
        engine.embedding.debug == engine.segmentation.debug,
        engine.extract_speaker_embeddings == config.extract_speaker_embeddings,
{
}

/// Every setting that is left open reaches the engine as four clusters, a threshold
/// of one half, no minimal duration, one thread, and the default provider.
pub proof fn law_open_settings_reach_the_engine(
    engine: OfflineSpeakerDiarizationConfig,
    segmentation_model: Seq<char>,
    embedding_model: Seq<char>,
    config: DiarizeConfig,
    default_provider: Seq<char>,
)
    requires
        engine.resolves(segmentation_model, embedding_model, config, default_provider),
    ensures
        config.num_clusters is None ==> engine.clustering.num_clusters == 4,
        config.threshold is None ==> engine.clustering.threshold.bits == 0x3f00_0000,
        config.min_duration_on is None ==> engine.min_duration_on.bits == 0,
        config.min_duration_off is None ==> engine.min_duration_off.bits == 0,
        config.provider is None ==> engine.segmentation.provider@ == default_provider
            && engine.embedding.provider@ == default_provider,
        config.num_segmentation_model_threads is None ==> engine.segmentation.num_threads == 1,
        config.num_embedding_model_threads is None ==> engine.embedding.num_threads == 1,
{
}

/// The default configuration, field by field.
pub proof fn law_default_settings(config: DiarizeConfig)
    requires
        config.is_default(),
    ensures
        config.num_clusters == Some(4i32),
        config.threshold matches Some(t) && t.bits == 0x3f00_0000,
        config.min_duration_on matches Some(t) && t.bits == 0,
        config.min_duration_off matches Some(t) && t.bits == 0,
        config.provider is None,
        config.num_embedding_model_threads == Some(1usize),
        config.num_segmentation_model_threads == Some(1usize),
        !config.debug,
        !config.extract_speaker_embeddings,
{
}

/// Each error has its own text.
pub proof fn law_error_texts(error: DiarizeError)
    ensures
        match error {
            DiarizeError::InitializationFailed => error.text()
                == "Failed to initialize offline speaker diarization"@,
            DiarizeError::NoSegments => error.text() == "No segments found or invalid pointer."@,
        },
{
}

} // verus!
