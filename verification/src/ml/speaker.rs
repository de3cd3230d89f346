//! Speaker embeddings: what they are made from, and how they are weighed.

use crate::pipeline::frames::{AudioFrame, regular_frame_list};
use crate::pipeline::frames;
use crate::profile::record::{RecordedClip, RecordingTakeKind, TrainingRecordingManifest};
use crate::profile::record;
use crate::profile::scan;
use crate::util::float32::Float32;
use crate::util::outcomes;
use crate::util::text;
use vstd::prelude::*;

verus! {

/// The model that embeddings come from.
pub const HEURISTIC_SPEAKER_MODEL_VERSION: &'static str = "heuristic-speaker-embedding-v0";

/// How many numbers an embedding holds.
pub const HEURISTIC_SPEAKER_EMBEDDING_DIMENSION: usize = 8;

/// From how many frames an embedding is made at least, where there are as many.
pub const MIN_ACTIVE_FRAME_COUNT: usize = 3;

/// How many reference scores count.
pub const TOP_REFERENCE_COUNT: usize = 3;

/// 0.45: no suggested threshold is lower.
pub const MIN_SUGGESTED_THRESHOLD_BITS: u32 = 0x3EE6_6666;

/// 0.95: no suggested threshold is higher.
pub const MAX_SUGGESTED_THRESHOLD_BITS: u32 = 0x3F73_3333;

/// 0.04: a smaller spread of the similarities counts as this much.
pub const MIN_SIMILARITY_SPREAD_BITS: u32 = 0x3D23_D70A;

/// The encoding of infinity.
pub const INFINITY_BITS: u32 = 0x7F80_0000;

/// How one recording of a speaker sounds.
#[derive(Debug, Clone)]
pub struct SpeakerEmbedding {
    pub kind: RecordingTakeKind,
    pub vector: Vec<Float32>,
    pub active_frame_count: usize,
}

/// How a speaker sounds.
#[derive(Debug, Clone)]
pub struct AggregatedSpeakerProfile {
    pub model_version: &'static str,
    pub embeddings: Vec<SpeakerEmbedding>,
    pub centroid: Vec<Float32>,
    pub dispersion: Float32,
    pub suggested_threshold: Float32,
}

/// Why there is no embedding.
#[derive(Debug, Clone, Copy, PartialEq, Eq, Structural)]
pub enum SpeakerError {
    NoSpeechRecording,
    NoSpeechSource,
    AmbientRecording,
    NoSampleRate,
    ClipTooShort,
    NothingToAggregate,
    AmbientAmongEmbeddings,
    UnexpectedDimension { dimension: usize },
    DimensionsDiffer,
}

impl SpeakerError {
    pub open spec fn spec_message(self) -> Seq<char> {
        match self {
            SpeakerError::NoSpeechRecording => {
                "speaker embedding extraction requires at least one speech recording"@
            },
            SpeakerError::NoSpeechSource => {
                "reference embedding extraction requires at least one speech source recording"@
            },
            SpeakerError::AmbientRecording => {
                "ambient silence recording cannot be used for speaker embedding extraction"@
            },
            SpeakerError::NoSampleRate => "speaker embedding sample rate must be positive"@,
            SpeakerError::ClipTooShort => "speech clip is too short to extract speaker embedding"@,
            SpeakerError::NothingToAggregate => "cannot aggregate empty speaker embedding set"@,
            SpeakerError::AmbientAmongEmbeddings => {
                "ambient silence embeddings cannot participate in speaker profile aggregation"@
            },
            SpeakerError::UnexpectedDimension { dimension } => {
                "unexpected speaker embedding dimension "@ + text::decimal(dimension as nat)
            },
            SpeakerError::DimensionsDiffer => {
                "speaker embedding dimensions must match before aggregation"@
            },
        }
    }

    /// The error in words.
    pub fn message(self) -> (r: String)
        ensures
            r@ == self.spec_message(),
    {
        match self {
            SpeakerError::NoSpeechRecording => {
                "speaker embedding extraction requires at least one speech recording".to_owned()
            },
            SpeakerError::NoSpeechSource => {
                "reference embedding extraction requires at least one speech source recording".to_owned()
            },
            SpeakerError::AmbientRecording => {
                "ambient silence recording cannot be used for speaker embedding extraction".to_owned()
            },
            SpeakerError::NoSampleRate => {
                "speaker embedding sample rate must be positive".to_owned()
            },
            SpeakerError::ClipTooShort => {
                "speech clip is too short to extract speaker embedding".to_owned()
            },
            SpeakerError::NothingToAggregate => {
                "cannot aggregate empty speaker embedding set".to_owned()
            },
            SpeakerError::AmbientAmongEmbeddings => {
                "ambient silence embeddings cannot participate in speaker profile aggregation".to_owned()
            },
            SpeakerError::UnexpectedDimension { dimension } => {
                let number = text::decimal_text(dimension as u64);
                text::joined("unexpected speaker embedding dimension ", number.as_str())
            },
            SpeakerError::DimensionsDiffer => {
                "speaker embedding dimensions must match before aggregation".to_owned()
            },
        }
    }
}

// ---------------------------------------------------------------------------
// Which recordings
// ---------------------------------------------------------------------------
/// The recorded prompts and the free speech, in order.
pub open spec fn speech_clips(manifest: TrainingRecordingManifest) -> Seq<RecordedClip> {
    record::present(manifest.fixed_prompts@) + record::at_most_one(manifest.free_speech)
}

/// Whether a recording can be made an embedding of.
pub fn check_speech_clip(clip: &RecordedClip) -> (r: Result<(), SpeakerError>)
    ensures
        r is Ok <==> !(clip.kind is AmbientSilence),
        r matches Err(error) ==> error == SpeakerError::AmbientRecording,
{
    match clip.kind {
        RecordingTakeKind::AmbientSilence => Err(SpeakerError::AmbientRecording),
        _ => Ok(()),
    }
}

/// The text of a path names an ambient take.
pub open spec fn names_ambient(path: Seq<char>) -> bool {
    text::occurs_in(text::lowered(path), "ambient_silence"@)
}

/// Whether a recording is an ambient take, by its path.
pub fn is_ambient_recording_path(path: &str) -> (r: bool)
    ensures
        r == names_ambient(path@),
{
    let lowered = text::lower_text(path);
    text::text_occurs_in(lowered.as_str(), "ambient_silence")
}

/// The paths that do not name an ambient take, in order.
pub open spec fn speech_sources(paths: Seq<String>) -> Seq<Seq<char>>
    decreases paths.len(),
{
    if paths.len() == 0 {
        seq![]
    } else if names_ambient(paths.last()@) {
        speech_sources(paths.drop_last())
    } else {
        speech_sources(paths.drop_last()).push(paths.last()@)
    }
}

/// The recordings to make embeddings of.
pub fn speech_recordings(manifest: &TrainingRecordingManifest) -> (r: Vec<RecordedClip>)
    ensures
        r@ == speech_clips(*manifest),
{
    let mut clips: Vec<RecordedClip> = Vec::new();
    let ghost slots = manifest.fixed_prompts@;
    let mut i: usize = 0;
    assert(clips@ =~= record::present(slots.take(0)));
    while i < manifest.fixed_prompts.len()
        invariant
            i <= manifest.fixed_prompts.len(),
            slots == manifest.fixed_prompts@,
            clips@ == record::present(slots.take(i as int)),
        decreases manifest.fixed_prompts.len() - i,
    {
        assert(slots.take(i + 1).drop_last() =~= slots.take(i as int));
        let ghost before = clips@;
        if let Some(clip) = &manifest.fixed_prompts[i] {
            clips.push(clip.clone());
        }
        assert(clips@ =~= before + record::at_most_one(slots[i as int]));
        i = i + 1;
    }
    assert(slots.take(i as int) =~= slots);
    let ghost before = clips@;
    if let Some(clip) = &manifest.free_speech {
        clips.push(clip.clone());
    }
    assert(clips@ =~= before + record::at_most_one(manifest.free_speech));
    clips
}

/// The recordings to make reference embeddings of.
pub fn reference_recordings(source_recordings: &Vec<String>) -> (r: Vec<String>)
    ensures
        text::texts(r@) == speech_sources(source_recordings@),
{
    let mut paths: Vec<String> = Vec::new();
    let mut i: usize = 0;
    assert(text::texts(paths@) =~= speech_sources(source_recordings@.take(0)));
    while i < source_recordings.len()
        invariant
            i <= source_recordings.len(),
            text::texts(paths@) == speech_sources(source_recordings@.take(i as int)),
        decreases source_recordings.len() - i,
    {
        assert(source_recordings@.take(i + 1).drop_last() =~= source_recordings@.take(i as int));
        let ghost before = text::texts(paths@);
        if !is_ambient_recording_path(source_recordings[i].as_str()) {
            paths.push(source_recordings[i].clone());
            assert(text::texts(paths@) =~= before.push(source_recordings@[i as int]@));
        }
        i = i + 1;
    }
    assert(source_recordings@.take(i as int) =~= source_recordings@);
    paths
}

/// What was extracted from one recording.
#[derive(Debug)]
pub struct ExtractedVoice {
    pub vector: Vec<Float32>,
    pub active_frame_count: usize,
}

/// Why the recordings have no embeddings.
#[derive(Debug)]
pub enum ExtractionError {
    Speaker { error: SpeakerError },
    /// A recording could not be read, or nothing could be extracted from it.
    Recording { detail: String },
}

impl ExtractionError {
    pub open spec fn spec_message(self) -> Seq<char> {
        match self {
            ExtractionError::Speaker { error } => error.spec_message(),
            ExtractionError::Recording { detail } => detail@,
        }
    }

    /// The error in words.
    pub fn message(&self) -> (r: String)
        ensures
            r@ == self.spec_message(),
    {
        match self {
            ExtractionError::Speaker { error } => error.message(),
            ExtractionError::Recording { detail } => detail.clone(),
        }
    }
}

/// Whether a vector has as many numbers as an embedding holds.
pub open spec fn is_embedding(vector: Vec<Float32>) -> bool {
    vector@.len() == HEURISTIC_SPEAKER_EMBEDDING_DIMENSION
}

/// Whether the recording at position `i` of an enrollment gives no embedding: it is an
/// ambient take, or nothing could be extracted from it.
pub open spec fn is_unheard(
    clips: Seq<RecordedClip>,
    extracted: Seq<Result<ExtractedVoice, String>>,
    i: int,
) -> bool {
    clips[i].kind is AmbientSilence || extracted[i] is Err
}

/// Whether the recording at position `i` is the first that gives no embedding, and
/// `error` tells why.
pub open spec fn unheard_first_at(
    clips: Seq<RecordedClip>,
    extracted: Seq<Result<ExtractedVoice, String>>,
    error: ExtractionError,
    i: int,
) -> bool {
    &&& 0 <= i < extracted.len()
    &&& is_unheard(clips, extracted, i)
    &&& forall|k: int| 0 <= k < i ==> !is_unheard(clips, extracted, k)
    &&& if clips[i].kind is AmbientSilence {
        error == (ExtractionError::Speaker { error: SpeakerError::AmbientRecording })
    } else {
        &&& error matches ExtractionError::Recording { detail }
        &&& extracted[i] matches Err(complaint)
        &&& detail@ == complaint@
    }
}

/// Whether `error` is that of the first recording that gives no embedding.
pub open spec fn unheard_first(
    clips: Seq<RecordedClip>,
    extracted: Seq<Result<ExtractedVoice, String>>,
    error: ExtractionError,
) -> bool {
    exists|i: int| #[trigger] unheard_first_at(clips, extracted, error, i)
}

/// Makes and compares embeddings.
#[derive(Debug)]
pub struct SpeakerEngine;

impl SpeakerEngine {
    /// The embeddings of an enrollment, given what was extracted from each of
    /// its speech recordings, in order. There must be one, and none may be an
    /// ambient take; one that could not be extracted voids all.
    pub fn extract_manifest_embeddings(
        manifest: &TrainingRecordingManifest,
        extracted: Vec<Result<ExtractedVoice, String>>,
    ) -> (r: Result<Vec<SpeakerEmbedding>, ExtractionError>)
        requires
            outcomes::reaches(extracted@, speech_clips(*manifest).len()),
            forall|i: int|
                0 <= i < extracted@.len() ==> ((#[trigger] extracted@[i]) matches Ok(voice)
                    ==> is_embedding(voice.vector)),
        ensures
            match r {
                Ok(embeddings) => {
                    let clips = speech_clips(*manifest);
                    &&& clips.len() > 0
                    &&& extracted@.len() == clips.len()
                    &&& embeddings@.len() == clips.len()
                    &&& forall|i: int| 0 <= i < clips.len() ==> !is_unheard(clips, extracted@, i)
                    &&& forall|i: int|
                        0 <= i < embeddings@.len() ==> {
                            let embedding = #[trigger] embeddings@[i];
                            let voice = extracted@[i]->Ok_0;
                            &&& embedding.kind == clips[i].kind
                            &&& embedding.vector@ == voice.vector@
                            &&& embedding.active_frame_count == voice.active_frame_count
                            &&& is_embedding(embedding.vector)
                        }
                },
                Err(error) => if speech_clips(*manifest).len() == 0 {
                    error == (ExtractionError::Speaker { error: SpeakerError::NoSpeechRecording })
                } else {
                    unheard_first(speech_clips(*manifest), extracted@, error)
                },
            },
    {
        let clips = speech_recordings(manifest);
        let count = clips.len();
        if count == 0 {
            return Err(ExtractionError::Speaker { error: SpeakerError::NoSpeechRecording });
        }
        let ghost given = extracted@;
        let mut waiting = extracted;
        let mut embeddings: Vec<SpeakerEmbedding> = Vec::new();
        let mut i: usize = 0;
        while waiting.len() > 0
            invariant
                given == extracted@,
                i + waiting@.len() == given.len() <= clips@.len(),
                count == clips@.len(),
                clips@ == speech_clips(*manifest),
                outcomes::reaches(given, clips@.len()),
                forall|k: int|
                    0 <= k < given.len() ==> ((#[trigger] given[k]) matches Ok(voice)
                        ==> is_embedding(voice.vector)),
                clips@.len() > 0,
                waiting@ == given.skip(i as int),
                embeddings@.len() == i,
                forall|k: int| 0 <= k < i ==> !is_unheard(clips@, given, k),
                forall|k: int|
                    0 <= k < i ==> {
                        let embedding = #[trigger] embeddings@[k];
                        let voice = given[k]->Ok_0;
                        &&& embedding.kind == clips@[k].kind
                        &&& embedding.vector@ == voice.vector@
                        &&& embedding.active_frame_count == voice.active_frame_count
                        &&& is_embedding(embedding.vector)
                    },
            decreases waiting.len(),
        {
            match check_speech_clip(&clips[i]) {
                Ok(()) => {},
                Err(error) => {
                    let failure = ExtractionError::Speaker { error };
                    assert(unheard_first_at(clips@, given, failure, i as int));
                    return Err(failure);
                },
            }
            match waiting.remove(0) {
                Ok(voice) => {
                    embeddings.push(
                        SpeakerEmbedding {
                            kind: clips[i].kind,
                            vector: voice.vector,
                            active_frame_count: voice.active_frame_count,
                        },
                    );
                },
                Err(detail) => {
                    let failure = ExtractionError::Recording { detail };
                    assert(unheard_first_at(clips@, given, failure, i as int));
                    return Err(failure);
                },
            }
            i = i + 1;
            assert(waiting@ =~= given.skip(i as int));
        }
        assert(given.len() < clips@.len() ==> is_unheard(clips@, given, given.len() - 1));
        Ok(embeddings)
    }

    /// The reference embeddings of a profile, given what was extracted from each
    /// of its speech recordings, in order. There must be one, and one that could not
    /// be extracted voids all.
    pub fn extract_reference_embeddings(
        source_recordings: &Vec<String>,
        extracted: Vec<Result<Vec<Float32>, String>>,
    ) -> (r: Result<Vec<Vec<Float32>>, ExtractionError>)
        requires
            extracted_from(source_recordings@, extracted@),
        ensures
            match r {
                Ok(vectors) => {
                    &&& speech_sources(source_recordings@).len() > 0
                    &&& extracted@.len() == speech_sources(source_recordings@).len()
                    &&& outcomes::all_succeed(extracted@)
                    &&& vectors@ == outcomes::gains(extracted@)
                    &&& forall|i: int|
                        0 <= i < vectors@.len() ==> is_embedding(#[trigger] vectors@[i])
                },
                Err(error) => if speech_sources(source_recordings@).len() == 0 {
                    error == (ExtractionError::Speaker { error: SpeakerError::NoSpeechSource })
                } else {
                    error matches ExtractionError::Recording { detail } && outcomes::fails_first(
                        extracted@,
                        detail@,
                    )
                },
            },
    {
        let ghost given = extracted@;
        let ghost count = speech_sources(source_recordings@).len();
        if extracted.len() == 0 {
            return Err(ExtractionError::Speaker { error: SpeakerError::NoSpeechSource });
        }
        let mut waiting = extracted;
        let mut vectors: Vec<Vec<Float32>> = Vec::new();
        while waiting.len() > 0
            invariant
                given == extracted@,
                vectors@.len() + waiting@.len() == given.len(),
                given.len() > 0,
                outcomes::reaches(given, count),
                count == speech_sources(source_recordings@).len(),
                extracted_from(source_recordings@, given),
                waiting@ == given.skip(vectors@.len() as int),
                outcomes::all_succeed(given.take(vectors@.len() as int)),
                vectors@ == outcomes::gains(given.take(vectors@.len() as int)),
                forall|k: int| 0 <= k < vectors@.len() ==> is_embedding(#[trigger] vectors@[k]),
            decreases waiting.len(),
        {
            let ghost n = vectors@.len() as int;
            assert(waiting@[0] == given[n]);
            match waiting.remove(0) {
                Ok(vector) => {
                    vectors.push(vector);
                    assert(given.take(n + 1) =~= given.take(n).push(given[n]));
                    assert(vectors@ =~= outcomes::gains(given.take(n + 1)));
                },
                Err(detail) => {
                    assert forall|k: int| 0 <= k < n implies (#[trigger] given[k]) is Ok by {
                        assert(given.take(n)[k] is Ok);
                    }
                    assert(outcomes::fails_first_at(given, n, detail@));
                    return Err(ExtractionError::Recording { detail });
                },
            }
            assert(waiting@ =~= given.skip(n + 1));
        }
        assert(given.take(given.len() as int) =~= given);
        Ok(vectors)
    }
}

/// Whether `extracted` is what came of the speech recordings among `paths`, in order.
pub open spec fn extracted_from(
    paths: Seq<String>,
    extracted: Seq<Result<Vec<Float32>, String>>,
) -> bool {
    &&& outcomes::reaches(extracted, speech_sources(paths).len())
    &&& forall|i: int|
        0 <= i < extracted.len() ==> ((#[trigger] extracted[i]) matches Ok(vector)
            ==> is_embedding(vector))
}

// ---------------------------------------------------------------------------
// Which frames
// ---------------------------------------------------------------------------
/// The frames of a recording that features are computed of. A recording must
/// have a sample rate and hold a frame.
pub fn observation_frames(
    sample_count: usize,
    sample_rate_hz: u32,
    frame_size: usize,
    hop_size: usize,
) -> (r: Result<Vec<AudioFrame>, SpeakerError>)
    requires
        frame_size > 0,
        hop_size > 0,
    ensures
        match r {
            Ok(list) => sample_rate_hz > 0 && sample_count >= frame_size && list@
                == frames::regular_frames(
                sample_count as int,
                frame_size as int,
                hop_size as int,
            ) && list@.len() > 0,
            Err(error) => if sample_rate_hz == 0 {
                error == SpeakerError::NoSampleRate
            } else {
                sample_count < frame_size && error == SpeakerError::ClipTooShort
            },
        },
{
    if sample_rate_hz == 0 {
        return Err(SpeakerError::NoSampleRate);
    }
    if sample_count < frame_size {
        return Err(SpeakerError::ClipTooShort);
    }
    proof {
        frames::lemma_regular_frame_fits(
            sample_count as int,
            frame_size as int,
            hop_size as int,
            0,
        );
    }
    Ok(regular_frame_list(sample_count, frame_size, hop_size))
}

/// Whether position `a` goes before position `b` when numbers are ranked from
/// the greatest to the least: equal numbers keep their order.
pub open spec fn ranks_before(values: Seq<Float32>, a: int, b: int) -> bool {
    values[a].order_key() > values[b].order_key() || (values[a].order_key()
        == values[b].order_key() && a < b)
}

/// Whether position `u` is among those picked.
pub open spec fn is_picked(picked: Seq<usize>, u: int) -> bool {
    exists|k: int| 0 <= k < picked.len() && #[trigger] picked[k] == u
}

/// Whether `picked` are the positions of the `count` numbers that rank first,
/// in the order of rank.
pub open spec fn is_ranking(values: Seq<Float32>, picked: Seq<usize>, count: int) -> bool {
    &&& picked.len() == count
    &&& forall|i: int| 0 <= i < picked.len() ==> (#[trigger] picked[i]) < values.len()
    &&& forall|i: int, j: int|
        0 <= i < j < picked.len() ==> ranks_before(values, picked[i] as int, picked[j] as int)
    &&& forall|i: int, u: int|
        0 <= i < picked.len() && 0 <= u < values.len() && !is_picked(picked, u)
            ==> ranks_before(values, picked[i] as int, u)
}

fn holds_position(picked: &Vec<usize>, position: usize) -> (r: bool)
    ensures
        r == is_picked(picked@, position as int),
{
    let mut i: usize = 0;
    while i < picked.len()
        invariant
            i <= picked.len(),
            forall|k: int| 0 <= k < i ==> picked@[k] != position,
        decreases picked.len() - i,
    {
        if picked[i] == position {
            assert(picked@[i as int] == position);
            return true;
        }
        i = i + 1;
    }
    false
}

/// The position that ranks first among those not yet picked.
fn next_in_rank(values: &Vec<Float32>, picked: &Vec<usize>) -> (r: usize)
    requires
        exists|u: int| 0 <= u < values@.len() && !is_picked(picked@, u),
    ensures
        r < values@.len(),
        !is_picked(picked@, r as int),
        forall|u: int|
            0 <= u < values@.len() && u != r && !is_picked(picked@, u) ==> ranks_before(
                values@,
                r as int,
                u,
            ),
{
    let mut best: Option<usize> = None;
    let mut i: usize = 0;
    while i < values.len()
        invariant
            i <= values.len(),
            best is None ==> forall|u: int| 0 <= u < i ==> is_picked(picked@, u),
            best matches Some(b) ==> b < i && !is_picked(picked@, b as int) && forall|u: int|
                0 <= u < i && u != b && !is_picked(picked@, u) ==> ranks_before(
                    values@,
                    b as int,
                    u,
                ),
        decreases values.len() - i,
    {
        if !holds_position(picked, i) {
            match best {
                None => {
                    best = Some(i);
                },
                Some(b) => {
                    if values[i].total_order_key() > values[b].total_order_key() {
                        best = Some(i);
                    }
                },
            }
        }
        i = i + 1;
    }
    match best {
        Some(b) => b,
        None => {
            proof {
                let u = choose|u: int| 0 <= u < values@.len() && !is_picked(picked@, u);
                assert(is_picked(picked@, u));
            }
            0
        },
    }
}

proof fn lemma_unpicked_exists(picked: Seq<usize>, n: int)
    requires
        picked.len() < n <= usize::MAX,
    ensures
        exists|u: int| 0 <= u < n && !is_picked(picked, u),
{
    if forall|u: int| 0 <= u < n ==> is_picked(picked, u) {
        let all = Seq::new(n as nat, |u: int| u as usize);
        assert(all.no_duplicates()) by {
            assert forall|i: int, j: int| 0 <= i < j < all.len() implies all[i] != all[j] by {
                assert(all[i] == i && all[j] == j);
            }
        }
        all.unique_seq_to_set();
        assert(all.to_set().subset_of(picked.to_set())) by {
            assert forall|x: usize| all.to_set().contains(x) implies picked.to_set().contains(
                x,
            ) by {
                let k = choose|k: int| 0 <= k < all.len() && all[k] == x;
                assert(is_picked(picked, k));
                let m = choose|m: int| 0 <= m < picked.len() && #[trigger] picked[m] == k;
                assert(picked[m] == x);
            }
        }
        vstd::set_lib::lemma_len_subset(all.to_set(), picked.to_set());
        picked.lemma_cardinality_of_set();
        assert(false);
    }
}

/// The positions of the `count` greatest numbers, the greatest first; of equal
/// numbers the earlier one comes first.
pub fn strongest_positions(values: &Vec<Float32>, count: usize) -> (r: Vec<usize>)
    ensures
        is_ranking(
            values@,
            r@,
            if count <= values@.len() {
                count as int
            } else {
                values@.len() as int
            },
        ),
{
    let wanted: usize = if count <= values.len() {
        count
    } else {
        values.len()
    };
    let mut picked: Vec<usize> = Vec::new();
    while picked.len() < wanted
        invariant
            picked.len() <= wanted <= values.len(),
            is_ranking(values@, picked@, picked@.len() as int),
        decreases wanted - picked.len(),
    {
        proof {
            lemma_unpicked_exists(picked@, values@.len() as int);
        }
        let ghost before = picked@;
        let next = next_in_rank(values, &picked);
        picked.push(next);
        proof {
            let after = picked@;
            assert(after[before.len() as int] == next);
            assert forall|u: int| 0 <= u < values@.len() && !is_picked(after, u) implies
                !is_picked(before, u) && u != next by {
                if is_picked(before, u) {
                    let k = choose|k: int| 0 <= k < before.len() && #[trigger] before[k] == u;
                    assert(after[k] == u);
                }
            }
            assert forall|i: int, u: int|
                0 <= i < after.len() && 0 <= u < values@.len() && !is_picked(after, u) implies ranks_before(values@, after[i] as int, u) by {
                assert(!is_picked(before, u) && u != next);
                if i < before.len() {
                    assert(after[i] == before[i]);
                }
            }
            assert forall|i: int, j: int| 0 <= i < j < after.len() implies ranks_before(
                values@,
                after[i] as int,
                after[j] as int,
            ) by {
                if j == before.len() {
                    assert(after[i] == before[i]);
                    assert(!is_picked(before, next as int));
                } else {
                    assert(after[i] == before[i] && after[j] == before[j]);
                }
            }
        }
    }
    picked
}

/// The positions of the numbers that reach the threshold, in order.
pub open spec fn reaching(values: Seq<Float32>, threshold: Float32) -> Seq<usize>
    decreases values.len(),
{
    if values.len() == 0 {
        seq![]
    } else {
        let rest = reaching(values.drop_last(), threshold);
        if threshold.at_most(values.last()) {
            rest.push((values.len() - 1) as usize)
        } else {
            rest
        }
    }
}

/// The frames an embedding is made from, by their level: all that reach the
/// threshold, or the loudest few where hardly any does.
pub fn select_active_frames(levels: &Vec<Float32>, activity_threshold_dbfs: Float32) -> (r: Vec<
    usize,
>)
    ensures
        reaching(levels@, activity_threshold_dbfs).len() >= MIN_ACTIVE_FRAME_COUNT ==> r@
            == reaching(levels@, activity_threshold_dbfs),
        reaching(levels@, activity_threshold_dbfs).len() < MIN_ACTIVE_FRAME_COUNT ==> is_ranking(
            levels@,
            r@,
            if MIN_ACTIVE_FRAME_COUNT <= levels@.len() {
                MIN_ACTIVE_FRAME_COUNT as int
            } else {
                levels@.len() as int
            },
        ),
        levels@.len() > 0 ==> r@.len() > 0,
{
    let mut selected: Vec<usize> = Vec::new();
    let mut i: usize = 0;
    assert(selected@ =~= reaching(levels@.take(0), activity_threshold_dbfs));
    while i < levels.len()
        invariant
            i <= levels.len(),
            selected@ == reaching(levels@.take(i as int), activity_threshold_dbfs),
        decreases levels.len() - i,
    {
        assert(levels@.take(i + 1).drop_last() =~= levels@.take(i as int));
        if levels[i].ge(activity_threshold_dbfs) {
            selected.push(i);
        }
        i = i + 1;
    }
    assert(levels@.take(i as int) =~= levels@);
    if selected.len() < MIN_ACTIVE_FRAME_COUNT {
        return strongest_positions(levels, MIN_ACTIVE_FRAME_COUNT);
    }
    selected
}

// ---------------------------------------------------------------------------
// Features
// ---------------------------------------------------------------------------
/// Whether the signal changes sign after sample `i`.
pub open spec fn sign_changes_after(samples: Seq<Float32>, i: int) -> bool {
    let zero = Float32 { bits: 0 };
    ||| zero.at_most(samples[i]) && samples[i + 1].less(zero)
    ||| samples[i].less(zero) && zero.at_most(samples[i + 1])
}

/// How often the signal changes sign among its first `n` samples.
pub open spec fn sign_change_count(samples: Seq<Float32>, n: int) -> int
    decreases n,
{
    if n < 2 {
        0
    } else {
        sign_change_count(samples, n - 1) + if sign_changes_after(samples, n - 2) {
            1int
        } else {
            0int
        }
    }
}

/// How often the signal changes sign.
pub fn zero_crossings(samples: &Vec<Float32>) -> (r: usize)
    ensures
        r == sign_change_count(samples@, samples@.len() as int),
        samples@.len() > 0 ==> r < samples@.len(),
{
    if samples.len() < 2 {
        return 0;
    }
    let zero = Float32 { bits: 0 };
    let mut count: usize = 0;
    let mut i: usize = 1;
    while i < samples.len()
        invariant
            1 <= i <= samples.len(),
            zero == (Float32 { bits: 0 }),
            count == sign_change_count(samples@, i as int),
            count < i,
        decreases samples.len() - i,
    {
        let left = samples[i - 1];
        let right = samples[i];
        if (left.ge(zero) && right.lt(zero)) || (left.lt(zero) && right.ge(zero)) {
            count = count + 1;
        }
        i = i + 1;
    }
    count
}

/// Whether the strength at `at` is above zero, above all before it and not below
/// any after it.
pub open spec fn is_strongest_lag(strengths: Seq<Float32>, at: int) -> bool {
    let zero = Float32 { bits: 0 };
    &&& 0 <= at < strengths.len()
    &&& zero.less(strengths[at])
    &&& forall|i: int| 0 <= i < at ==> !strengths[at].at_most(#[trigger] strengths[i])
    &&& forall|i: int| at < i < strengths.len() ==> !strengths[at].less(#[trigger] strengths[i])
}

/// The position of the greatest strength above zero, the first of them.
pub fn strongest_lag(strengths: &Vec<Float32>) -> (r: Option<usize>)
    ensures
        match r {
            Some(at) => is_strongest_lag(strengths@, at as int),
            None => forall|i: int|
                0 <= i < strengths@.len() ==> !(Float32 { bits: 0 }).less(
                    #[trigger] strengths@[i],
                ),
        },
{
    let mut best = Float32 { bits: 0 };
    let mut at: Option<usize> = None;
    let mut i: usize = 0;
    while i < strengths.len()
        invariant
            i <= strengths.len(),
            match at {
                Some(k) => k < i && best == strengths@[k as int] && is_strongest_lag(
                    strengths@.take(i as int),
                    k as int,
                ),
                None => best == (Float32 { bits: 0 }) && forall|k: int|
                    0 <= k < i ==> !(Float32 { bits: 0 }).less(#[trigger] strengths@[k]),
            },
        decreases strengths.len() - i,
    {
        let ghost before = strengths@.take(i as int);
        let ghost after = strengths@.take(i + 1);
        assert(forall|k: int| 0 <= k < i ==> before[k] == after[k]);
        let ghost old_at = at;
        let ghost old_best = best;
        if strengths[i].gt(best) {
            best = strengths[i];
            at = Some(i);
            proof {
                match old_at {
                    Some(k) => {
                        assert forall|j: int| 0 <= j < i implies !best.at_most(
                            #[trigger] after[j],
                        ) by {
                            assert(before[j] == after[j]);
                            assert(before[k as int] == after[k as int]);
                        }
                    },
                    None => {
                        assert forall|j: int| 0 <= j < i implies !best.at_most(
                            #[trigger] after[j],
                        ) by {
                            assert(strengths@[j] == after[j]);
                        }
                    },
                }
            }
        }
        i = i + 1;
    }
    assert(strengths@.take(i as int) =~= strengths@);
    at
}

// ---------------------------------------------------------------------------
// Scores
// ---------------------------------------------------------------------------
/// The numbers at the positions picked.
pub open spec fn numbers_at(values: Seq<Float32>, picked: Seq<usize>) -> Seq<Float32> {
    picked.map_values(|p: usize| values[p as int])
}

/// The scores that count for the references: the greatest few, the greatest
/// first.
pub fn top_reference_scores(scores: &Vec<Float32>) -> (r: Vec<Float32>)
    ensures
        exists|picked: Seq<usize>|
            is_ranking(
                scores@,
                picked,
                if TOP_REFERENCE_COUNT <= scores@.len() {
                    TOP_REFERENCE_COUNT as int
                } else {
                    scores@.len() as int
                },
            ) && r@ == #[trigger] numbers_at(scores@, picked),
{
    let picked = strongest_positions(scores, TOP_REFERENCE_COUNT);
    let mut top: Vec<Float32> = Vec::new();
    let mut i: usize = 0;
    while i < picked.len()
        invariant
            i <= picked.len(),
            forall|k: int| 0 <= k < picked@.len() ==> (#[trigger] picked@[k]) < scores@.len(),
            top@ == numbers_at(scores@, picked@.take(i as int)),
        decreases picked.len() - i,
    {
        top.push(scores[picked[i]]);
        i = i + 1;
        assert(top@ =~= numbers_at(scores@, picked@.take(i as int)));
    }
    assert(picked@.take(i as int) =~= picked@);
    top
}

/// The score of a voice against a profile. Where the references lend no
/// support, the centroid alone decides; otherwise the blend of both, between 0
/// and 1.
pub open spec fn match_score(
    centroid_score: Float32,
    reference_support: Float32,
    blended: Float32,
) -> Float32 {
    if reference_support.at_most(Float32 { bits: 0 }) {
        centroid_score
    } else {
        blended.spec_clamped(Float32 { bits: 0 }, Float32 { bits: 0x3F80_0000 })
    }
}

impl SpeakerEngine {
    /// The score of a voice against a profile, from its score against the
    /// centroid, the support of the references and the blend of the two.
    pub fn profile_match_score(
        centroid_score: Float32,
        reference_support: Float32,
        blended: Float32,
    ) -> (r: Float32)
        ensures
            r == match_score(centroid_score, reference_support, blended),
    {
        if reference_support.le(Float32 { bits: 0 }) {
            centroid_score
        } else {
            blended.clamped(Float32 { bits: 0 }, Float32 { bits: 0x3F80_0000 })
        }
    }
}

// ---------------------------------------------------------------------------
// Aggregation
// ---------------------------------------------------------------------------
/// What is wrong with a set of embeddings, if anything: what comes first
/// counts.
pub open spec fn aggregation_obstacle(embeddings: Seq<SpeakerEmbedding>) -> Option<SpeakerError> {
    if embeddings.len() == 0 {
        Some(SpeakerError::NothingToAggregate)
    } else if exists|i: int|
        0 <= i < embeddings.len() && (#[trigger] embeddings[i]).kind is AmbientSilence {
        Some(SpeakerError::AmbientAmongEmbeddings)
    } else if embeddings[0].vector@.len() != HEURISTIC_SPEAKER_EMBEDDING_DIMENSION {
        Some(
            SpeakerError::UnexpectedDimension { dimension: embeddings[0].vector@.len() as usize },
        )
    } else if exists|i: int|
        0 <= i < embeddings.len() && (#[trigger] embeddings[i]).vector@.len()
            != HEURISTIC_SPEAKER_EMBEDDING_DIMENSION {
        Some(SpeakerError::DimensionsDiffer)
    } else {
        None
    }
}

/// How much an embedding weighs in the centroid: by its active frames, and one
/// where it has none.
pub fn embedding_weight(embedding: &SpeakerEmbedding) -> (r: usize)
    ensures
        r == if embedding.active_frame_count == 0 {
            1
        } else {
            embedding.active_frame_count
        },
{
    if embedding.active_frame_count == 0 {
        1
    } else {
        embedding.active_frame_count
    }
}

/// The least of the similarities; infinity where there are none.
pub open spec fn least(values: Seq<Float32>) -> Float32
    decreases values.len(),
{
    if values.len() == 0 {
        Float32 { bits: INFINITY_BITS }
    } else {
        least(values.drop_last()).spec_smaller(values.last())
    }
}

/// The least of the similarities.
pub fn least_similarity(values: &Vec<Float32>) -> (r: Float32)
    ensures
        r == least(values@),
{
    let mut smallest = Float32 { bits: INFINITY_BITS };
    let mut i: usize = 0;
    while i < values.len()
        invariant
            i <= values.len(),
            smallest == least(values@.take(i as int)),
        decreases values.len() - i,
    {
        assert(values@.take(i + 1).drop_last() =~= values@.take(i as int));
        smallest = smallest.smaller(values[i]);
        i = i + 1;
    }
    assert(values@.take(i as int) =~= values@);
    smallest
}

/// The spread that counts: a small one counts as the minimum.
pub fn counted_spread(spread: Float32) -> (r: Float32)
    ensures
        r == spread.spec_larger(Float32 { bits: MIN_SIMILARITY_SPREAD_BITS }),
{
    spread.larger(Float32 { bits: MIN_SIMILARITY_SPREAD_BITS })
}

/// What was calculated from a set of embeddings.
#[derive(Debug)]
pub struct AggregateNumbers {
    pub centroid: Vec<Float32>,
    /// The mean similarity of the embeddings to the centroid.
    pub mean_similarity: Float32,
    /// The mean distance of the embeddings from the centroid.
    pub dispersion: Float32,
    /// The least similarity, less the spread and the margin.
    pub threshold_candidate: Float32,
}

/// The threshold to suggest: the candidate kept within its range, but never
/// above the mean similarity.
pub open spec fn suggested(candidate: Float32, mean_similarity: Float32) -> Float32 {
    candidate.spec_clamped(
        Float32 { bits: MIN_SUGGESTED_THRESHOLD_BITS },
        Float32 { bits: MAX_SUGGESTED_THRESHOLD_BITS },
    ).spec_smaller(mean_similarity)
}

impl SpeakerEngine {
    /// Whether a set of embeddings can be aggregated.
    pub fn check_embeddings(embeddings: &Vec<SpeakerEmbedding>) -> (r: Result<(), SpeakerError>)
        ensures
            r == match aggregation_obstacle(embeddings@) {
                Some(error) => Err::<(), SpeakerError>(error),
                None => Ok::<(), SpeakerError>(()),
            },
    {
        if embeddings.len() == 0 {
            return Err(SpeakerError::NothingToAggregate);
        }
        let mut i: usize = 0;
        while i < embeddings.len()
            invariant
                0 < embeddings.len(),
                i <= embeddings.len(),
                forall|k: int| 0 <= k < i ==> !((#[trigger] embeddings@[k]).kind is AmbientSilence),
            decreases embeddings.len() - i,
        {
            match embeddings[i].kind {
                RecordingTakeKind::AmbientSilence => {
                    assert(embeddings@[i as int].kind is AmbientSilence);
                    return Err(SpeakerError::AmbientAmongEmbeddings);
                },
                _ => {},
            }
            i = i + 1;
        }
        let dimension = embeddings[0].vector.len();
        if dimension != HEURISTIC_SPEAKER_EMBEDDING_DIMENSION {
            return Err(SpeakerError::UnexpectedDimension { dimension });
        }
        let mut j: usize = 0;
        while j < embeddings.len()
            invariant
                0 < embeddings.len(),
                j <= embeddings.len(),
                dimension == HEURISTIC_SPEAKER_EMBEDDING_DIMENSION,
                embeddings@[0].vector@.len() == dimension,
                forall|k: int|
                    0 <= k < embeddings@.len() ==> !((
                    #[trigger] embeddings@[k]).kind is AmbientSilence),
                forall|k: int| 0 <= k < j ==> (#[trigger] embeddings@[k]).vector@.len() == dimension,
            decreases embeddings.len() - j,
        {
            if embeddings[j].vector.len() != dimension {
                assert(embeddings@[j as int].vector@.len()
                    != HEURISTIC_SPEAKER_EMBEDDING_DIMENSION);
                return Err(SpeakerError::DimensionsDiffer);
            }
            j = j + 1;
        }
        Ok(())
    }

    /// Makes one profile of a set of embeddings, given what was calculated from
    /// them.
    pub fn aggregate_embeddings(embeddings: Vec<SpeakerEmbedding>, numbers: AggregateNumbers) -> (r:
        Result<AggregatedSpeakerProfile, SpeakerError>)
        requires
            aggregation_obstacle(embeddings@) is None ==> is_embedding(numbers.centroid),
        ensures
            match aggregation_obstacle(embeddings@) {
                Some(error) => r == Err::<AggregatedSpeakerProfile, SpeakerError>(error),
                None => {
                    &&& r matches Ok(profile)
                    &&& profile.model_version@ == HEURISTIC_SPEAKER_MODEL_VERSION@
                    &&& profile.embeddings@ == embeddings@
                    &&& profile.centroid@ == numbers.centroid@
                    &&& is_embedding(profile.centroid)
                    &&& forall|i: int|
                        0 <= i < profile.embeddings@.len() ==> is_embedding(
                            (#[trigger] profile.embeddings@[i]).vector,
                        )
                    &&& profile.dispersion == numbers.dispersion.spec_larger(Float32 { bits: 0 })
                    &&& profile.suggested_threshold == suggested(
                        numbers.threshold_candidate,
                        numbers.mean_similarity,
                    )
                },
            },
    {
        match SpeakerEngine::check_embeddings(&embeddings) {
            Ok(()) => {},
            Err(error) => {
                return Err(error);
            },
        }
        Ok(
            AggregatedSpeakerProfile {
                model_version: HEURISTIC_SPEAKER_MODEL_VERSION,
                embeddings,
                centroid: numbers.centroid,
                dispersion: numbers.dispersion.larger(Float32 { bits: 0 }),
                suggested_threshold: numbers.threshold_candidate.clamped(
                    Float32 { bits: MIN_SUGGESTED_THRESHOLD_BITS },
                    Float32 { bits: MAX_SUGGESTED_THRESHOLD_BITS },
                ).smaller(numbers.mean_similarity),
            },
        )
    }
}

/// The suggested threshold is never above the mean similarity, nor above the top
/// of its range.
pub proof fn suggestion_is_bounded(candidate: Float32, mean_similarity: Float32)
    requires
        !candidate.spec_is_nan(),
        !mean_similarity.spec_is_nan(),
    ensures
        suggested(candidate, mean_similarity).at_most(mean_similarity),
        suggested(candidate, mean_similarity).at_most(
            Float32 { bits: MAX_SUGGESTED_THRESHOLD_BITS },
        ),
{
    let low = Float32 { bits: MIN_SUGGESTED_THRESHOLD_BITS };
    let high = Float32 { bits: MAX_SUGGESTED_THRESHOLD_BITS };
    crate::util::float32::lemma_scaled_order(low, high);
}

/// The recordings that references are made of are all those given, in order, without
/// the ambient takes.
pub proof fn ambient_sources_are_left_out(paths: Seq<String>)
    ensures
        speech_sources(paths) == text::texts(paths).filter(|path: Seq<char>| !names_ambient(path)),
        forall|i: int|
            0 <= i < speech_sources(paths).len() ==> !names_ambient(
                #[trigger] speech_sources(paths)[i],
            ),
    decreases paths.len(),
{
    reveal(Seq::filter);
    if paths.len() > 0 {
        ambient_sources_are_left_out(paths.drop_last());
        assert(text::texts(paths).drop_last() =~= text::texts(paths.drop_last()));
    }
}

/// An ambient take is known by its path, wherever the recordings stand.
pub proof fn ambient_path_is_recognized(dir: Seq<char>)
    ensures
        names_ambient(scan::expected_path(dir, RecordingTakeKind::AmbientSilence)),
{
    reveal_strlit("ambient_silence.wav");
    reveal_strlit("ambient_silence");
    let name = RecordingTakeKind::AmbientSilence.spec_file_name();
    let whole = scan::expected_path(dir, RecordingTakeKind::AmbientSilence);
    let at = whole.len() - name.len();
    assert(text::lowered(whole).subrange(at, at + 15) =~= "ambient_silence"@);
    assert(text::stands_at(text::lowered(whole), "ambient_silence"@, at));
}

/// Where the references lend support, the blend alone decides: it is the score wherever it
/// lies between 0 and 1, so that weak references pull the score below that of the
/// centroid, and the centroid counts through the blend only.
pub proof fn references_may_lower_the_score(
    centroid_score: Float32,
    other_centroid_score: Float32,
    reference_support: Float32,
    blended: Float32,
)
    requires
        (Float32 { bits: 0 }).less(reference_support),
        !blended.spec_is_nan(),
    ensures
        (Float32 { bits: 0 }).at_most(blended) && blended.at_most(Float32 { bits: 0x3F80_0000 })
            ==> match_score(centroid_score, reference_support, blended) == blended,
        (Float32 { bits: 0 }).at_most(blended) && blended.at_most(Float32 { bits: 0x3F80_0000 })
            && blended.less(centroid_score) ==> match_score(
            centroid_score,
            reference_support,
            blended,
        ).less(centroid_score),
        match_score(centroid_score, reference_support, blended) == match_score(
            other_centroid_score,
            reference_support,
            blended,
        ),
        (Float32 { bits: 0 }).at_most(match_score(centroid_score, reference_support, blended)),
        match_score(centroid_score, reference_support, blended).at_most(
            Float32 { bits: 0x3F80_0000 },
        ),
{
    crate::util::float32::lemma_scaled_order(
        Float32 { bits: 0 },
        Float32 { bits: 0x3F80_0000 },
    );
}

/// A greater blend never gives a lower score.
pub proof fn score_rises_with_blend(
    centroid_score: Float32,
    reference_support: Float32,
    a: Float32,
    b: Float32,
)
    requires
        (Float32 { bits: 0 }).less(reference_support),
        a.at_most(b),
    ensures
        match_score(centroid_score, reference_support, a).at_most(
            match_score(centroid_score, reference_support, b),
        ),
{
    crate::util::float32::lemma_scaled_order(
        Float32 { bits: 0 },
        Float32 { bits: 0x3F80_0000 },
    );
}

/// Without support from the references the centroid alone decides, whatever the blend.
pub proof fn centroid_decides_without_references(
    centroid_score: Float32,
    reference_support: Float32,
    blended: Float32,
)
    requires
        reference_support.at_most(Float32 { bits: 0 }),
    ensures
        match_score(centroid_score, reference_support, blended) == centroid_score,
{
}

/// The voice is learned from every recording but the ambient take, in order; from a
/// complete enrollment, from as many as there are prompts and one more.
pub proof fn voice_is_learned_from_all_speech(manifest: TrainingRecordingManifest)
    ensures
        manifest.ambient_silence is Some ==> speech_clips(manifest) == manifest.clips().skip(1)
            && manifest.clips()[0] == manifest.ambient_silence->0,
        manifest.ambient_silence is None ==> speech_clips(manifest) == manifest.clips(),
        manifest.complete() ==> speech_clips(manifest).len() == manifest.fixed_prompts@.len() + 1,
        forall|i: int|
            0 <= i < manifest.fixed_prompts@.len() ==> ((
            #[trigger] manifest.fixed_prompts@[i]) matches Some(clip) ==> speech_clips(
                manifest,
            ).contains(clip)),
        manifest.free_speech matches Some(clip) ==> speech_clips(manifest).len() > 0
            && speech_clips(manifest).last() == clip,
{
    let slots = manifest.fixed_prompts@;
    let speech = speech_clips(manifest);
    record::lemma_present_bound(slots);
    if manifest.ambient_silence is Some {
        assert(speech =~= manifest.clips().skip(1));
    } else {
        assert(speech =~= manifest.clips());
    }
    assert forall|i: int| 0 <= i < slots.len() implies ((
    #[trigger] slots[i]) matches Some(clip) ==> speech.contains(clip)) by {
        if slots[i] is Some {
            let k = record::lemma_present_holds(slots, i);
            assert(speech[k] == slots[i]->0);
        }
    }
}

/// An ambient take is told by its name in any case of letters.
pub proof fn ambient_name_ignores_case(path: Seq<char>)
    ensures
        names_ambient(text::lowered(path)) == names_ambient(path),
{
    text::lemma_lowered_twice(path);
}

/// No file of a prompt or of the free speech is taken for an ambient take.
pub proof fn speech_files_are_not_ambient(kind: RecordingTakeKind)
    ensures
        !(kind is AmbientSilence) ==> !names_ambient(kind.spec_file_name()),
{
    if !(kind is AmbientSilence) {
        let name = kind.spec_file_name();
        let low = text::lowered(name);
        reveal_strlit("ambient_silence");
        reveal_strlit("free_speech.wav");
        reveal_strlit("fixed_prompt_");
        reveal_strlit(".wav");
        if kind is FixedPrompt {
            text::lemma_decimal_two_is_digits((kind->index + 1) as nat);
        }
        assert forall|i: int| 0 <= i < low.len() implies #[trigger] low[i] != 'b' by {
            assert(low[i] == text::ascii_lower(name[i]));
            assert(name[i] != 'b' && name[i] != 'B');
        }
        if text::occurs_in(low, "ambient_silence"@) {
            let at = choose|at: int| text::stands_at(low, "ambient_silence"@, at);
            assert(low.subrange(at, at + 15)[2] == 'b');
            assert(low[at + 2] == 'b');
        }
    }
}

/// Numbers are ranked in one way only.
pub proof fn ranking_is_unique(
    values: Seq<Float32>,
    first: Seq<usize>,
    second: Seq<usize>,
    count: int,
)
    requires
        is_ranking(values, first, count),
        is_ranking(values, second, count),
    ensures
        first == second,
{
    assert forall|i: int| 0 <= i < count implies first[i] == second[i] by {
        lemma_ranking_agrees(values, first, second, count, i);
    }
    assert(first =~= second);
}

proof fn lemma_ranking_agrees(
    values: Seq<Float32>,
    first: Seq<usize>,
    second: Seq<usize>,
    count: int,
    i: int,
)
    requires
        is_ranking(values, first, count),
        is_ranking(values, second, count),
        0 <= i < count,
    ensures
        first[i] == second[i],
    decreases i,
{
    assert forall|k: int| 0 <= k < i implies first[k] == second[k] by {
        lemma_ranking_agrees(values, first, second, count, k);
    }
    if first[i] != second[i] {
        let a = first[i] as int;
        let b = second[i] as int;
        assert(ranks_before(values, b, a)) by {
            if is_picked(second, a) {
                let j = choose|j: int| 0 <= j < second.len() && #[trigger] second[j] == a;
                if j < i {
                    assert(first[j] == second[j]);
                    assert(ranks_before(values, first[j] as int, first[i] as int));
                }
                assert(j > i);
                assert(ranks_before(values, second[i] as int, second[j] as int));
            } else {
                assert(ranks_before(values, second[i] as int, a));
            }
        }
        assert(ranks_before(values, a, b)) by {
            if is_picked(first, b) {
                let j = choose|j: int| 0 <= j < first.len() && #[trigger] first[j] == b;
                if j < i {
                    assert(first[j] == second[j]);
                    assert(ranks_before(values, second[j] as int, second[i] as int));
                }
                assert(j > i);
                assert(ranks_before(values, first[i] as int, first[j] as int));
            } else {
                assert(ranks_before(values, first[i] as int, b));
            }
        }
    }
}

/// What ranks first is never less than what ranks later or is left out.
pub proof fn ranking_prefers_the_greater(
    values: Seq<Float32>,
    picked: Seq<usize>,
    count: int,
    i: int,
    u: int,
)
    requires
        is_ranking(values, picked, count),
        0 <= i < count,
        0 <= u < values.len(),
        forall|k: int| 0 <= k < i ==> picked[k] != u,
    ensures
        !values[picked[i] as int].less(values[u]),
{
    let a = picked[i] as int;
    if u != a {
        if is_picked(picked, u) {
            let j = choose|j: int| 0 <= j < picked.len() && #[trigger] picked[j] == u;
            assert(ranks_before(values, picked[i] as int, picked[j] as int));
        } else {
            assert(ranks_before(values, a, u));
        }
        if values[a].less(values[u]) {
            crate::util::float32::total_order_agrees_with_less(values[a], values[u]);
        }
    }
}

/// A frame is among those that reach the threshold exactly where its level does, and they
/// are kept in order, each once.
pub proof fn loud_frames_are_all_selected(levels: Seq<Float32>, threshold: Float32)
    requires
        levels.len() <= usize::MAX,
    ensures
        forall|i: int|
            0 <= i < levels.len() ==> (is_picked(reaching(levels, threshold), i)
                <==> threshold.at_most(#[trigger] levels[i])),
        forall|a: int, b: int|
            0 <= a < b < reaching(levels, threshold).len() ==> reaching(levels, threshold)[a]
                < reaching(levels, threshold)[b],
        forall|a: int|
            0 <= a < reaching(levels, threshold).len() ==> (#[trigger] reaching(
                levels,
                threshold,
            )[a]) < levels.len(),
    decreases levels.len(),
{
    if levels.len() > 0 {
        let rest = levels.drop_last();
        loud_frames_are_all_selected(rest, threshold);
        let all = reaching(levels, threshold);
        let before = reaching(rest, threshold);
        let last = levels.len() - 1;
        assert forall|i: int| 0 <= i < levels.len() implies (is_picked(all, i)
            <==> threshold.at_most(#[trigger] levels[i])) by {
            if i < last {
                assert(rest[i] == levels[i]);
                if is_picked(before, i) {
                    let k = choose|k: int| 0 <= k < before.len() && #[trigger] before[k] == i;
                    assert(all[k] == i);
                }
                if is_picked(all, i) {
                    let k = choose|k: int| 0 <= k < all.len() && #[trigger] all[k] == i;
                    assert(k < before.len());
                    assert(before[k] == i);
                }
            } else {
                if threshold.at_most(levels[i]) {
                    assert(all[before.len() as int] == i);
                }
                if is_picked(all, i) {
                    let k = choose|k: int| 0 <= k < all.len() && #[trigger] all[k] == i;
                    if k < before.len() {
                        assert(before[k] < rest.len());
                    }
                }
            }
        }
    }
}

/// One sample more adds a crossing exactly where it and the one before it stand on
/// different sides of zero; zero counts as above.
pub proof fn crossings_are_counted(samples: Seq<Float32>, n: int)
    requires
        1 <= n < samples.len(),
        !samples[n - 1].spec_is_nan(),
        !samples[n].spec_is_nan(),
    ensures
        sign_change_count(samples, 1) == 0,
        sign_change_count(samples, n + 1) - sign_change_count(samples, n) == if samples[n
            - 1].less(Float32 { bits: 0 }) != samples[n].less(Float32 { bits: 0 }) {
            1int
        } else {
            0int
        },
{
}

/// Only one lag is the strongest.
pub proof fn strongest_lag_is_unique(strengths: Seq<Float32>, a: int, b: int)
    requires
        is_strongest_lag(strengths, a),
        is_strongest_lag(strengths, b),
    ensures
        a == b,
{
}

/// The strongest lag is no weaker than any other.
pub proof fn strongest_lag_is_greatest(strengths: Seq<Float32>, at: int, i: int)
    requires
        is_strongest_lag(strengths, at),
        0 <= i < strengths.len(),
    ensures
        !strengths[at].less(strengths[i]),
        i < at && !strengths[i].spec_is_nan() ==> strengths[i].less(strengths[at]),
        (Float32 { bits: 0 }).less(strengths[at]),
{
}

/// Embeddings can be aggregated exactly where there is one, none is an ambient take's, and
/// all have eight numbers.
pub proof fn only_whole_voices_are_aggregated(embeddings: Seq<SpeakerEmbedding>)
    ensures
        aggregation_obstacle(embeddings) is None <==> embeddings.len() > 0 && forall|i: int|
            0 <= i < embeddings.len() ==> !((#[trigger] embeddings[i]).kind is AmbientSilence)
                && embeddings[i].vector@.len() == 8,
        embeddings.len() == 0 <==> aggregation_obstacle(embeddings) == Some(
            SpeakerError::NothingToAggregate,
        ),
{
    if embeddings.len() > 0 {
        assert(embeddings[0] == embeddings[0]);
    }
}

/// The least similarity bounds all of them and is one of them, where there is one below
/// infinity.
pub proof fn least_bounds_similarities(values: Seq<Float32>, i: int)
    requires
        0 <= i < values.len(),
        forall|k: int| 0 <= k < values.len() ==> !(#[trigger] values[k]).spec_is_nan(),
    ensures
        least(values).at_most(values[i]),
        least(values).bits == INFINITY_BITS || values.contains(least(values)),
    decreases values.len(),
{
    let rest = values.drop_last();
    assert forall|k: int| 0 <= k < rest.len() implies !(#[trigger] rest[k]).spec_is_nan() by {
        assert(rest[k] == values[k]);
    }
    assert(values[values.len() - 1] == values.last());
    assert(values.contains(values.last()));
    if rest.len() > 0 {
        let k = if i < rest.len() {
            i
        } else {
            0
        };
        least_bounds_similarities(rest, k);
        assert forall|x: Float32| rest.contains(x) implies values.contains(x) by {
            let at = choose|at: int| 0 <= at < rest.len() && rest[at] == x;
            assert(values[at] == x);
        }
    } else {
        assert(least(rest).bits == INFINITY_BITS);
        crate::util::float32::lemma_scaled_order(least(rest), values.last());
        assert(!least(rest).less(values.last()));
    }
}

/// A candidate between 0.45 and 0.95 that is not above the mean similarity is suggested as
/// it is; a lower one is raised to 0.45, a higher one lowered to 0.95, and the mean is
/// never passed. A greater candidate never gives a lower suggestion.
pub proof fn suggestion_follows_candidate(a: Float32, b: Float32, mean_similarity: Float32)
    requires
        a.at_most(b),
        !mean_similarity.spec_is_nan(),
    ensures
        suggested(a, mean_similarity).at_most(suggested(b, mean_similarity)),
        (Float32 { bits: 0x3EE6_6666 }).at_most(a) && a.at_most(Float32 { bits: 0x3F73_3333 })
            && a.at_most(mean_similarity) ==> suggested(a, mean_similarity) == a,
        a.less(Float32 { bits: 0x3EE6_6666 }) && (Float32 { bits: 0x3EE6_6666 }).at_most(
            mean_similarity,
        ) ==> suggested(a, mean_similarity).bits == 0x3EE6_6666,
        (Float32 { bits: 0x3F73_3333 }).less(a) && (Float32 { bits: 0x3F73_3333 }).at_most(
            mean_similarity,
        ) ==> suggested(a, mean_similarity).bits == 0x3F73_3333,
        mean_similarity.less(Float32 { bits: 0x3EE6_6666 }) ==> suggested(a, mean_similarity)
            == mean_similarity,
{
    crate::util::float32::lemma_scaled_order(
        Float32 { bits: 0x3EE6_6666 },
        Float32 { bits: 0x3F73_3333 },
    );
}

/// The scores that count are scores of references, none counted twice, and no reference that is
/// left out has a greater one.
pub proof fn counted_scores_are_the_greatest(
    scores: Seq<Float32>,
    picked: Seq<usize>,
    count: int,
    i: int,
    u: int,
)
    requires
        is_ranking(scores, picked, count),
        0 <= i < count,
        0 <= u < scores.len(),
        !is_picked(picked, u),
    ensures
        numbers_at(scores, picked).len() == count,
        numbers_at(scores, picked)[i] == scores[picked[i] as int],
        !numbers_at(scores, picked)[i].less(scores[u]),
        forall|j: int| 0 <= j < count && j != i ==> picked[j] != picked[i],
{
    ranking_prefers_the_greater(scores, picked, count, i, u);
    assert forall|j: int| 0 <= j < count && j != i implies picked[j] != picked[i] by {
        if j < i {
            assert(ranks_before(scores, picked[j] as int, picked[i] as int));
        } else {
            assert(ranks_before(scores, picked[i] as int, picked[j] as int));
        }
    }
}

/// What is told of recordings without a voice is told of the first of them: that it is an ambient
/// take, or what the extraction complained of.
pub proof fn first_unheard_recording_is_told(
    clips: Seq<RecordedClip>,
    extracted: Seq<Result<ExtractedVoice, String>>,
    error: ExtractionError,
)
    requires
        unheard_first(clips, extracted, error),
    ensures
        exists|i: int|
            {
                &&& 0 <= i < extracted.len()
                &&& (#[trigger] extracted[i]) is Err || clips[i].kind
                    == RecordingTakeKind::AmbientSilence
                &&& forall|k: int|
                    0 <= k < i ==> (#[trigger] extracted[k]) is Ok && clips[k].kind
                        != RecordingTakeKind::AmbientSilence
                &&& clips[i].kind == RecordingTakeKind::AmbientSilence ==> error == (
                ExtractionError::Speaker { error: SpeakerError::AmbientRecording })
                &&& clips[i].kind != RecordingTakeKind::AmbientSilence ==> error is Recording
                    && extracted[i] is Err && error->detail@ == extracted[i]->Err_0@
            },
{
    let i = choose|i: int| #[trigger] unheard_first_at(clips, extracted, error, i);
    assert forall|k: int| 0 <= k < i implies (#[trigger] extracted[k]) is Ok && clips[k].kind
        != RecordingTakeKind::AmbientSilence by {
        assert(!is_unheard(clips, extracted, k));
    }
    assert(extracted[i] is Err || clips[i].kind == RecordingTakeKind::AmbientSilence);
}

} // verus!
