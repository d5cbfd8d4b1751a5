//! The result of a diarization.
use crate::diarize::float::Float32;
use std::collections::BTreeMap;
use vstd::prelude::*;

verus! {

/// A stretch of speech by one speaker, with its times in seconds.
#[derive(Debug, Clone, Copy, PartialEq, Eq, Structural)]
pub struct Segment {
    pub start: Float32,
    pub end: Float32,
    pub speaker: i32,
}

/// Whether one of these segments is by `speaker`.
pub open spec fn one_by(segments: Seq<Segment>, speaker: i32) -> bool {
    exists|i: int| 0 <= i < segments.len() && (#[trigger] segments[i]).speaker == speaker
}

/// What a diarization found, as a mathematical value.
pub struct DiarizationView {
    /// The segments, in the order in which the engine listed them.
    pub segments: Seq<Segment>,
    /// The embedding of each speaker that has one.
    pub embeddings: Map<i32, Seq<Float32>>,
}

impl DiarizationView {
    /// Whether some segment is by `speaker`.
    pub open spec fn speaks(self, speaker: i32) -> bool {
        one_by(self.segments, speaker)
    }

    /// There is a segment, and only speakers of segments have embeddings.
    pub open spec fn wf(self) -> bool {
        &&& self.segments.len() > 0
        &&& forall|k: i32| #[trigger] self.embeddings.contains_key(k) ==> self.speaks(k)
    }
}

/// The contents of a map of vectors.
pub open spec fn vectors(m: Map<i32, Vec<Float32>>) -> Map<i32, Seq<Float32>> {
    m.map_values(|v: Vec<Float32>| v@)
}

/// The segments of a diarization, with the embeddings of their speakers where
/// these were asked for.
#[derive(Debug)]
pub struct ComputedDiarizationSegments {
    segments: Vec<Segment>,
    speaker_embeddings: BTreeMap<i32, Vec<Float32>>,
}

impl View for ComputedDiarizationSegments {
    type V = DiarizationView;

    closed spec fn view(&self) -> DiarizationView {
        DiarizationView {
            segments: self.segments@,
            embeddings: vectors(self.speaker_embeddings@),
        }
    }
}

impl ComputedDiarizationSegments {
    #[verifier::type_invariant]
    spec fn type_inv(self) -> bool {
        self@.wf()
    }

    pub(crate) fn from_parts(
        segments: Vec<Segment>,
        speaker_embeddings: BTreeMap<i32, Vec<Float32>>,
    ) -> (r: ComputedDiarizationSegments)
        requires
            (DiarizationView { segments: segments@, embeddings: vectors(speaker_embeddings@) }).wf(),
        ensures
            r@ == (DiarizationView { segments: segments@, embeddings: vectors(speaker_embeddings@) }),
    {
        ComputedDiarizationSegments { segments, speaker_embeddings }
    }

    /// The number of segments, which is never zero.
    pub fn len(&self) -> (r: usize)
        ensures
            r == self@.segments.len(),
            r > 0,
    {
        proof {
            use_type_invariant(self);
        }
        self.segments.len()
    }

    /// Whether there are no segments. There always are some.
    pub fn is_empty(&self) -> (r: bool)
        ensures
            r == (self@.segments.len() == 0),
            !r,
    {
        proof {
            use_type_invariant(self);
        }
        self.segments.is_empty()
    }

    /// The segments.
    pub fn segments(&self) -> (r: &[Segment])
        ensures
            r@ == self@.segments,
    {
        &self.segments
    }

    /// The embedding of the speaker with this label, where there is one.
    pub fn speaker_embeddings(&self, speaker_label: i32) -> (r: Option<&[Float32]>)
        ensures
            r is Some <==> self@.embeddings.contains_key(speaker_label),
            r matches Some(v) ==> v@ == self@.embeddings[speaker_label] && self@.speaks(speaker_label),
    {
        proof {
            use_type_invariant(self);
        }
        match self.speaker_embeddings.get(&speaker_label) {
            Some(embeddings) => Some(embeddings.as_slice()),
            None => None,
        }
    }
}

impl Clone for ComputedDiarizationSegments {
    fn clone(&self) -> (r: ComputedDiarizationSegments)
        ensures
            r@ == self@,
    {
        proof {
            use_type_invariant(self);
        }
        let segments = self.segments.clone();
        let speaker_embeddings = self.speaker_embeddings.clone();
        assert(segments@ =~= self.segments@);
        ComputedDiarizationSegments { segments, speaker_embeddings }
    }
}

impl IntoIterator for ComputedDiarizationSegments {
    type IntoIter = std::vec::IntoIter<Segment>;

    type Item = Segment;

    /// The segments one by one, in order.
    fn into_iter(self) -> (r: std::vec::IntoIter<Segment>)
        ensures
            vstd::std_specs::iter::IteratorSpec::remaining(&r) == self@.segments,
    {
        self.segments.into_iter()
    }
}

} // verus!
