//! The speaker filter: which frames pass and which are held down.
//!
//! Levels, similarities and interpolated gains are calculated by the caller;
//! what becomes of every frame is decided here.

use crate::ml::speaker::SpeakerEngine;
use crate::ml::speaker;
use crate::ml::vad::{VadEngine, VadFrameDecision};
use crate::ml::vad;
use crate::pipeline::frames::{AudioClip, AudioFrame, frame_signal};
use crate::pipeline::frames;
use crate::profile::storage::SpeakerProfile;
use crate::util::float32::Float32;
use crate::util::float32;
use crate::util::outcomes;
use crate::util::time::MODEL_SAMPLE_RATE;
use vstd::prelude::*;

verus! {

/// How many samples a frame has at the model's rate: 25 ms.
pub const MODEL_FRAME_SAMPLES: usize = 400;

/// How far frames stand apart at the model's rate: 10 ms.
pub const MODEL_HOP_SAMPLES: usize = 160;

/// How many samples are looked at on either side of a frame's centre: 200 ms.
pub const CONTEXT_RADIUS_SAMPLES: usize = 3200;

/// 0.03: the gain of a frame without speech.
pub const BACKGROUND_GAIN_BITS: u32 = 0x3CF5_C28F;

/// 0.08: the gain of another speaker's frame.
pub const MIN_ACTIVE_GAIN_BITS: u32 = 0x3DA3_D70A;

/// 0.75: from this gain on, speech counts as kept.
pub const KEPT_SPEECH_GAIN_BITS: u32 = 0x3F40_0000;

/// 0.20: up to this gain, speech counts as suppressed.
pub const SUPPRESSED_SPEECH_GAIN_BITS: u32 = 0x3E4C_CCCD;

/// 0.72: no operating threshold is lower.
pub const MIN_OPERATING_THRESHOLD_BITS: u32 = 0x3F38_51EC;

/// 0.93: no operating threshold is higher.
pub const MAX_OPERATING_THRESHOLD_BITS: u32 = 0x3F6E_147B;

/// 0.20: no rejection threshold is lower.
pub const MIN_REJECT_THRESHOLD_BITS: u32 = 0x3E4C_CCCD;

/// 0.35: the gain that a speaker's frame keeps while the speaker is present.
pub const TARGET_PRESENCE_GAIN_FLOOR_BITS: u32 = 0x3EB3_3333;

/// For how many frames a speaker counts as present after the last sure frame.
pub const TARGET_PRESENCE_HOLD_FRAMES: usize = 12;

// ---------------------------------------------------------------------------
// Presence
// ---------------------------------------------------------------------------
/// What lies below the operating threshold by the three margins.
#[derive(Debug, Clone, Copy)]
pub struct ThresholdMargins {
    /// The threshold less the transition band.
    pub less_transition: Float32,
    /// The threshold less the margin for coming.
    pub less_enter: Float32,
    /// The threshold less the margin for leaving.
    pub less_exit: Float32,
}

/// The similarity up to which a frame is rejected outright.
pub open spec fn reject_threshold(margins: ThresholdMargins) -> Float32 {
    margins.less_transition.spec_larger(Float32 { bits: MIN_REJECT_THRESHOLD_BITS })
}

/// Remembers for a while that the speaker was there.
#[derive(Debug, Clone, Copy, PartialEq, Eq, Structural)]
pub struct TargetPresenceHold {
    pub enter_threshold: Float32,
    pub exit_threshold: Float32,
    pub hold_frames: usize,
    pub overlap_gain_floor: Float32,
    pub remaining_hold_frames: usize,
}

impl TargetPresenceHold {
    /// The speaker is held for no longer than the hold lasts.
    pub open spec fn well_formed(self) -> bool {
        self.remaining_hold_frames <= self.hold_frames
    }

    /// For how long the speaker is still held after a frame with speech of this
    /// similarity, if it was `remaining` frames before.
    pub open spec fn held_after(self, remaining: nat, similarity: Float32) -> nat {
        if self.enter_threshold.at_most(similarity) {
            self.hold_frames as nat
        } else if remaining > 0 && similarity.less(self.exit_threshold) {
            (remaining - 1) as nat
        } else {
            remaining
        }
    }

    /// The gain of a frame with speech of this similarity: raised to the floor
    /// while the speaker is held, unless the frame is too unlike.
    pub open spec fn held_gain(
        self,
        remaining: nat,
        similarity: Float32,
        base_gain: Float32,
        dynamic_floor: Float32,
    ) -> Float32 {
        if remaining > 0 && self.exit_threshold.at_most(similarity) {
            base_gain.spec_larger(dynamic_floor)
        } else {
            base_gain
        }
    }

    /// A hold on nobody.
    pub fn new(margins: ThresholdMargins) -> (r: Self)
        ensures
            r.enter_threshold == margins.less_enter.spec_larger(reject_threshold(margins)),
            r.exit_threshold == margins.less_exit.spec_larger(reject_threshold(margins)),
            r.hold_frames == TARGET_PRESENCE_HOLD_FRAMES,
            r.overlap_gain_floor == (Float32 { bits: TARGET_PRESENCE_GAIN_FLOOR_BITS }),
            r.remaining_hold_frames == 0,
            r.well_formed(),
    {
        let reject = margins.less_transition.larger(Float32 { bits: MIN_REJECT_THRESHOLD_BITS });
        let floor = Float32 { bits: TARGET_PRESENCE_GAIN_FLOOR_BITS };
        let least = Float32 { bits: MIN_ACTIVE_GAIN_BITS };
        proof {
            float32::lemma_scaled_order(floor, least);
            float32::lemma_scaled_order(least, floor);
        }
        TargetPresenceHold {
            enter_threshold: margins.less_enter.larger(reject),
            exit_threshold: margins.less_exit.larger(reject),
            hold_frames: TARGET_PRESENCE_HOLD_FRAMES,
            overlap_gain_floor: floor.larger(least),
            remaining_hold_frames: 0,
        }
    }

    /// Takes note of a frame with speech and gives its gain.
    pub fn update_active_frame(
        &mut self,
        similarity: Float32,
        base_gain: Float32,
        dynamic_floor: Float32,
    ) -> (r: Float32)
        ensures
            *final(self) == (TargetPresenceHold {
                remaining_hold_frames: old(self).held_after(
                    old(self).remaining_hold_frames as nat,
                    similarity,
                ) as usize,
                ..*old(self)
            }),
            r == old(self).held_gain(
                final(self).remaining_hold_frames as nat,
                similarity,
                base_gain,
                dynamic_floor,
            ),
            old(self).well_formed() ==> final(self).well_formed(),
    {
        if similarity.ge(self.enter_threshold) {
            self.remaining_hold_frames = self.hold_frames;
        } else if self.remaining_hold_frames > 0 && similarity.lt(self.exit_threshold) {
            self.remaining_hold_frames = self.remaining_hold_frames - 1;
        }
        if self.remaining_hold_frames > 0 && similarity.ge(self.exit_threshold) {
            base_gain.larger(dynamic_floor)
        } else {
            base_gain
        }
    }

    /// Takes note of a frame without speech.
    pub fn update_inactive_frame(&mut self)
        ensures
            *final(self) == (TargetPresenceHold {
                remaining_hold_frames: if old(self).remaining_hold_frames > 0 {
                    (old(self).remaining_hold_frames - 1) as usize
                } else {
                    0
                },
                ..*old(self)
            }),
            old(self).well_formed() ==> final(self).well_formed(),
    {
        if self.remaining_hold_frames > 0 {
            self.remaining_hold_frames = self.remaining_hold_frames - 1;
        }
    }
}

// ---------------------------------------------------------------------------
// Thresholds and gains
// ---------------------------------------------------------------------------
/// The similarity from which a frame passes: suggestion, dispersion and margin
/// together, kept within its range.
pub open spec fn operating_threshold(wanted: Float32) -> Float32 {
    wanted.spec_clamped(
        Float32 { bits: MIN_OPERATING_THRESHOLD_BITS },
        Float32 { bits: MAX_OPERATING_THRESHOLD_BITS },
    )
}

/// The similarity from which a frame passes, given the sum of the profile's
/// suggestion, its dispersion and the margin.
pub fn operating_similarity_threshold(wanted: Float32) -> (r: Float32)
    ensures
        r == operating_threshold(wanted),
{
    wanted.clamped(
        Float32 { bits: MIN_OPERATING_THRESHOLD_BITS },
        Float32 { bits: MAX_OPERATING_THRESHOLD_BITS },
    )
}

/// The gain of a frame with speech, before presence is considered: full from
/// the threshold on, least up to the rejection threshold, interpolated between.
pub open spec fn base_gain(
    similarity: Float32,
    threshold: Float32,
    reject: Float32,
    interpolated: Float32,
) -> Float32 {
    if threshold.at_most(similarity) {
        Float32 { bits: float32::ONE_BITS }
    } else if similarity.at_most(reject) {
        Float32 { bits: MIN_ACTIVE_GAIN_BITS }
    } else {
        interpolated
    }
}

/// The gain of a frame with speech, before presence is considered.
pub fn similarity_to_gain(
    similarity: Float32,
    threshold: Float32,
    reject: Float32,
    interpolated: Float32,
) -> (r: Float32)
    ensures
        r == base_gain(similarity, threshold, reject, interpolated),
        threshold.at_most(similarity) ==> r.bits == float32::ONE_BITS,
        !threshold.at_most(similarity) && similarity.at_most(reject) ==> r.bits
            == MIN_ACTIVE_GAIN_BITS,
        !threshold.at_most(similarity) && !similarity.at_most(reject) ==> r == interpolated,
{
    if similarity.ge(threshold) {
        Float32 { bits: float32::ONE_BITS }
    } else if similarity.le(reject) {
        Float32 { bits: MIN_ACTIVE_GAIN_BITS }
    } else {
        interpolated
    }
}

/// The stretch of the signal around a frame by which its speaker is told.
pub open spec fn context_of(frame: AudioFrame, sample_count: int) -> AudioFrame {
    let centre = (frame.start_sample + frame.end_sample) / 2;
    let start = centre - CONTEXT_RADIUS_SAMPLES;
    let end = centre + CONTEXT_RADIUS_SAMPLES;
    AudioFrame {
        start_sample: if start < 0 {
            0
        } else {
            start as usize
        },
        end_sample: if end < sample_count {
            end as usize
        } else {
            sample_count as usize
        },
    }
}

/// The stretch of the signal around a frame by which its speaker is told.
pub fn similarity_context(frame: AudioFrame, sample_count: usize) -> (r: AudioFrame)
    requires
        frame.start_sample <= frame.end_sample <= sample_count,
    ensures
        r == context_of(frame, sample_count as int),
        r.start_sample <= r.end_sample <= sample_count,
{
    let length: usize = frame.end_sample - frame.start_sample;
    let centre: usize = frame.start_sample + length / 2;
    let start: usize = if centre < CONTEXT_RADIUS_SAMPLES {
        0
    } else {
        centre - CONTEXT_RADIUS_SAMPLES
    };
    let end: usize = if CONTEXT_RADIUS_SAMPLES < sample_count - centre {
        centre + CONTEXT_RADIUS_SAMPLES
    } else {
        sample_count
    };
    AudioFrame { start_sample: start, end_sample: end }
}

// ---------------------------------------------------------------------------
// The pass over a chunk
// ---------------------------------------------------------------------------
/// What was calculated of a frame with speech.
#[derive(Debug, Clone, Copy)]
pub struct FrameScore {
    /// How like the speaker the frame is.
    pub similarity: Float32,
    /// The gain for a similarity between the two thresholds.
    pub interpolated_gain: Float32,
    /// The gain that the frame keeps while the speaker is held.
    pub dynamic_floor: Float32,
}

/// For how long the speaker is still held after some frames. A frame without
/// speech has no score.
pub open spec fn remaining_after(
    hold: TargetPresenceHold,
    scores: Seq<Option<FrameScore>>,
) -> nat
    decreases scores.len(),
{
    if scores.len() == 0 {
        hold.remaining_hold_frames as nat
    } else {
        let before = remaining_after(hold, scores.drop_last());
        match scores.last() {
            Some(score) => hold.held_after(before, score.similarity),
            None => if before > 0 {
                (before - 1) as nat
            } else {
                0
            },
        }
    }
}

/// The gain that frame `i` should have.
pub open spec fn desired_gain(
    engine: BasicFilterEngine,
    scores: Seq<Option<FrameScore>>,
    i: int,
) -> Float32 {
    match scores[i] {
        None => Float32 { bits: BACKGROUND_GAIN_BITS },
        Some(score) => engine.target_presence.held_gain(
            remaining_after(engine.target_presence, scores.take(i + 1)),
            score.similarity,
            base_gain(
                score.similarity,
                engine.operating_similarity_threshold,
                engine.reject_threshold,
                score.interpolated_gain,
            ),
            score.dynamic_floor,
        ),
    }
}

/// The similarities of the frames with speech, in order.
pub open spec fn similarities_of(scores: Seq<Option<FrameScore>>) -> Seq<Float32>
    decreases scores.len(),
{
    if scores.len() == 0 {
        seq![]
    } else {
        let rest = similarities_of(scores.drop_last());
        match scores.last() {
            Some(score) => rest.push(score.similarity),
            None => rest,
        }
    }
}

/// How many of the first `n` frames have speech and a smoothed gain that counts
/// as kept.
pub open spec fn kept_count(
    scores: Seq<Option<FrameScore>>,
    gains: Seq<Float32>,
    n: int,
) -> nat
    decreases n,
{
    if n <= 0 {
        0
    } else {
        kept_count(scores, gains, n - 1) + if scores[n - 1] is Some && (Float32 {
            bits: KEPT_SPEECH_GAIN_BITS,
        }).at_most(gains[n - 1]) {
            1nat
        } else {
            0nat
        }
    }
}

/// How many of the first `n` frames have speech and a smoothed gain that counts
/// as suppressed.
pub open spec fn suppressed_count(
    scores: Seq<Option<FrameScore>>,
    gains: Seq<Float32>,
    n: int,
) -> nat
    decreases n,
{
    if n <= 0 {
        0
    } else {
        suppressed_count(scores, gains, n - 1) + if scores[n - 1] is Some && gains[n - 1].at_most(
            Float32 { bits: SUPPRESSED_SPEECH_GAIN_BITS },
        ) {
            1nat
        } else {
            0nat
        }
    }
}

/// The least similarity, counted from 1 down.
pub open spec fn least_from_one(similarities: Seq<Float32>) -> Float32
    decreases similarities.len(),
{
    if similarities.len() == 0 {
        Float32 { bits: float32::ONE_BITS }
    } else {
        least_from_one(similarities.drop_last()).spec_smaller(similarities.last())
    }
}

/// The greatest similarity, counted from 0 up.
pub open spec fn greatest_from_zero(similarities: Seq<Float32>) -> Float32
    decreases similarities.len(),
{
    if similarities.len() == 0 {
        Float32 { bits: float32::ZERO_BITS }
    } else {
        greatest_from_zero(similarities.drop_last()).spec_larger(similarities.last())
    }
}

/// The last of a sequence of numbers; 0 where it is empty.
pub open spec fn last_or_zero(values: Seq<Float32>) -> Float32 {
    if values.len() == 0 {
        Float32 { bits: float32::ZERO_BITS }
    } else {
        values.last()
    }
}

/// What is told of a filtered chunk.
#[derive(Debug, Clone, Copy, PartialEq, Eq, Structural)]
pub struct BasicFilterChunkMetrics {
    pub analyzed_frame_count: usize,
    pub active_frame_count: usize,
    pub kept_active_frame_count: usize,
    pub suppressed_active_frame_count: usize,
    pub mean_similarity: Float32,
    pub min_similarity: Float32,
    pub max_similarity: Float32,
    pub operating_similarity_threshold: Float32,
    pub average_frame_gain: Float32,
    pub latest_similarity: Float32,
    pub latest_frame_gain: Float32,
}

impl BasicFilterChunkMetrics {
    /// What is told of a chunk that could not be filtered: nothing.
    pub open spec fn spec_default() -> BasicFilterChunkMetrics {
        BasicFilterChunkMetrics {
            analyzed_frame_count: 0,
            active_frame_count: 0,
            kept_active_frame_count: 0,
            suppressed_active_frame_count: 0,
            mean_similarity: Float32 { bits: 0 },
            min_similarity: Float32 { bits: 0 },
            max_similarity: Float32 { bits: 0 },
            operating_similarity_threshold: Float32 { bits: 0 },
            average_frame_gain: Float32 { bits: 0 },
            latest_similarity: Float32 { bits: 0 },
            latest_frame_gain: Float32 { bits: 0 },
        }
    }
}

impl Default for BasicFilterChunkMetrics {
    fn default() -> (r: Self)
        ensures
            r == BasicFilterChunkMetrics::spec_default(),
    {
        let zero = Float32 { bits: 0 };
        BasicFilterChunkMetrics {
            analyzed_frame_count: 0,
            active_frame_count: 0,
            kept_active_frame_count: 0,
            suppressed_active_frame_count: 0,
            mean_similarity: zero,
            min_similarity: zero,
            max_similarity: zero,
            operating_similarity_threshold: zero,
            average_frame_gain: zero,
            latest_similarity: zero,
            latest_frame_gain: zero,
        }
    }
}

/// A filtered chunk.
#[derive(Debug)]
pub struct BasicFilterChunkOutcome {
    pub output_samples: Vec<Float32>,
    pub metrics: BasicFilterChunkMetrics,
}

/// What stands for a chunk that could not be filtered: silence of the same length.
pub fn silent_chunk(sample_count: usize) -> (r: BasicFilterChunkOutcome)
    ensures
        r.output_samples@ == Seq::new(sample_count as nat, |i: int| Float32 { bits: 0 }),
        r.metrics == BasicFilterChunkMetrics::spec_default(),
{
    let mut output_samples: Vec<Float32> = Vec::new();
    let mut i: usize = 0;
    while i < sample_count
        invariant
            i <= sample_count,
            output_samples@ == Seq::new(i as nat, |k: int| Float32 { bits: 0 }),
        decreases sample_count - i,
    {
        output_samples.push(Float32 { bits: 0 });
        i = i + 1;
        assert(output_samples@ =~= Seq::new(i as nat, |k: int| Float32 { bits: 0 }));
    }
    BasicFilterChunkOutcome { output_samples, metrics: BasicFilterChunkMetrics::default() }
}

/// The gains that the frames of a chunk should have, and the similarities they
/// come from.
#[derive(Debug)]
pub struct FramePass {
    pub desired_gains: Vec<Float32>,
    pub similarities: Vec<Float32>,
}

/// The means over a chunk.
#[derive(Debug, Clone, Copy)]
pub struct ChunkMeans {
    /// The mean of the similarities; it does not count where there are none.
    pub similarity: Float32,
    /// The mean of the smoothed gains; it does not count where there are none.
    pub frame_gain: Float32,
}

/// Why a chunk or a profile is not filtered.
#[derive(Debug, Clone, Copy, PartialEq, Eq, Structural)]
pub enum FilterError {
    ProfileWithoutEmbedding,
    CentroidSizeMismatch,
    NoFrames,
}

impl FilterError {
    pub open spec fn spec_message(self) -> Seq<char> {
        match self {
            FilterError::ProfileWithoutEmbedding => {
                "basic filter requires an embedding-ready speaker profile"@
            },
            FilterError::CentroidSizeMismatch => {
                "speaker profile centroid size does not match embedding_dimension"@
            },
            FilterError::NoFrames => "basic filter could not frame the input audio"@,
        }
    }

    /// The error in words.
    pub fn message(self) -> (r: &'static str)
        ensures
            r@ == self.spec_message(),
    {
        match self {
            FilterError::ProfileWithoutEmbedding => {
                "basic filter requires an embedding-ready speaker profile"
            },
            FilterError::CentroidSizeMismatch => {
                "speaker profile centroid size does not match embedding_dimension"
            },
            FilterError::NoFrames => "basic filter could not frame the input audio",
        }
    }
}

/// What stands in the way of filtering by a profile, if anything.
pub open spec fn profile_obstacle(profile: SpeakerProfile) -> Option<FilterError> {
    if profile.embedding_count == 0 || profile.centroid@.len() == 0 {
        Some(FilterError::ProfileWithoutEmbedding)
    } else if profile.embedding_dimension != Some(profile.centroid@.len() as usize) {
        Some(FilterError::CentroidSizeMismatch)
    } else {
        None
    }
}

/// Filters chunk after chunk by a speaker profile.
#[derive(Debug)]
pub struct BasicFilterEngine {
    pub centroid: Vec<Float32>,
    pub reference_embeddings: Vec<Vec<Float32>>,
    pub operating_similarity_threshold: Float32,
    pub reject_threshold: Float32,
    pub vad: VadEngine,
    pub target_presence: TargetPresenceHold,
    pub previous_gain: Option<Float32>,
}

fn copied(values: &Vec<Float32>) -> (r: Vec<Float32>)
    ensures
        r@ == values@,
{
    let mut copy: Vec<Float32> = Vec::new();
    let mut i: usize = 0;
    while i < values.len()
        invariant
            i <= values.len(),
            copy@ == values@.take(i as int),
        decreases values.len() - i,
    {
        copy.push(values[i]);
        i = i + 1;
        assert(copy@ =~= values@.take(i as int));
    }
    assert(values@.take(i as int) =~= values@);
    copy
}

/// The references of an engine: all that was extracted, or none where a recording
/// failed.
pub open spec fn references(extracted: Seq<Result<Vec<Float32>, String>>) -> Seq<Vec<Float32>> {
    if outcomes::all_succeed(extracted) {
        outcomes::gains(extracted)
    } else {
        seq![]
    }
}

impl BasicFilterEngine {
    pub open spec fn well_formed(self) -> bool {
        self.target_presence.well_formed()
    }

    /// An engine for a profile, given its operating threshold, what lies below it
    /// by the margins, and what was extracted from each of its speech recordings. It
    /// works without references where they cannot all be had.
    pub fn from_profile(
        profile: &SpeakerProfile,
        operating_similarity_threshold: Float32,
        margins: ThresholdMargins,
        extracted: Vec<Result<Vec<Float32>, String>>,
    ) -> (r: Result<Self, FilterError>)
        requires
            speaker::extracted_from(profile.source_recordings@, extracted@),
        ensures
            match profile_obstacle(*profile) {
                Some(error) => r == Err::<BasicFilterEngine, FilterError>(error),
                None => {
                    &&& r matches Ok(engine)
                    &&& engine.centroid@ == profile.centroid@
                    &&& engine.reference_embeddings@ == references(extracted@)
                    &&& engine.operating_similarity_threshold == operating_similarity_threshold
                    &&& engine.reject_threshold == reject_threshold(margins)
                    &&& engine.vad.activity_threshold_dbfs
                        == profile.speech_activity_threshold_dbfs
                    &&& engine.vad.hangover_frames == vad::HANGOVER_FRAMES
                    &&& engine.target_presence.enter_threshold == margins.less_enter.spec_larger(
                        reject_threshold(margins),
                    )
                    &&& engine.target_presence.exit_threshold == margins.less_exit.spec_larger(
                        reject_threshold(margins),
                    )
                    &&& engine.target_presence.hold_frames == TARGET_PRESENCE_HOLD_FRAMES
                    &&& engine.target_presence.overlap_gain_floor == (Float32 {
                        bits: TARGET_PRESENCE_GAIN_FLOOR_BITS,
                    })
                    &&& engine.target_presence.remaining_hold_frames == 0
                    &&& engine.previous_gain is None
                    &&& engine.well_formed()
                },
            },
    {
        if profile.embedding_count == 0 || profile.centroid.len() == 0 {
            return Err(FilterError::ProfileWithoutEmbedding);
        }
        let fits = match profile.embedding_dimension {
            Some(dimension) => dimension == profile.centroid.len(),
            None => false,
        };
        if !fits {
            return Err(FilterError::CentroidSizeMismatch);
        }
        let ghost given = extracted@;
        let reference_embeddings = match SpeakerEngine::extract_reference_embeddings(
            &profile.source_recordings,
            extracted,
        ) {
            Ok(vectors) => vectors,
            Err(_) => Vec::new(),
        };
        assert(reference_embeddings@ =~= references(given));
        Ok(
            BasicFilterEngine {
                centroid: copied(&profile.centroid),
                reference_embeddings,
                operating_similarity_threshold,
                reject_threshold: margins.less_transition.larger(
                    Float32 { bits: MIN_REJECT_THRESHOLD_BITS },
                ),
                vad: VadEngine::new(profile.speech_activity_threshold_dbfs),
                target_presence: TargetPresenceHold::new(margins),
                previous_gain: None,
            },
        )
    }

    /// The frames of a chunk at the model's rate. There must be one.
    pub fn chunk_frames(sample_count: usize) -> (r: Result<Vec<AudioFrame>, FilterError>)
        ensures
            r is Ok <==> sample_count > 0,
            r matches Ok(list) ==> list@ == frames::framed(
                sample_count as int,
                MODEL_SAMPLE_RATE,
                MODEL_FRAME_SAMPLES as int,
                MODEL_HOP_SAMPLES as int,
            ) && list@.len() > 0,
            r matches Err(error) ==> error == FilterError::NoFrames,
    {
        let list = frame_signal(
            sample_count,
            MODEL_SAMPLE_RATE,
            MODEL_FRAME_SAMPLES,
            MODEL_HOP_SAMPLES,
        );
        proof {
            if sample_count > MODEL_FRAME_SAMPLES {
                frames::lemma_regular_frame_fits(
                    sample_count as int,
                    MODEL_FRAME_SAMPLES as int,
                    MODEL_HOP_SAMPLES as int,
                    0,
                );
            }
        }
        if list.len() == 0 {
            return Err(FilterError::NoFrames);
        }
        Ok(list)
    }

    /// Decides on the gain of every frame of a chunk, and remembers whether the
    /// speaker was there. A frame without speech has no score.
    pub fn decide_gains(&mut self, scores: &Vec<Option<FrameScore>>) -> (r: FramePass)
        ensures
            r.desired_gains@ == Seq::new(
                scores@.len(),
                |i: int| desired_gain(*old(self), scores@, i),
            ),
            r.similarities@ == similarities_of(scores@),
            *final(self) == (BasicFilterEngine {
                target_presence: final(self).target_presence,
                ..*old(self)
            }),
            final(self).target_presence == (TargetPresenceHold {
                remaining_hold_frames: remaining_after(
                    old(self).target_presence,
                    scores@,
                ) as usize,
                ..old(self).target_presence
            }),
            old(self).well_formed() ==> final(self).well_formed(),
    {
        let ghost before = *self;
        let ghost hold = self.target_presence;
        let mut desired_gains: Vec<Float32> = Vec::new();
        let mut similarities: Vec<Float32> = Vec::new();
        let mut i: usize = 0;
        assert(similarities@ =~= similarities_of(scores@.take(0)));
        while i < scores.len()
            invariant
                i <= scores.len(),
                before == *old(self),
                hold == before.target_presence,
                *self == (BasicFilterEngine { target_presence: self.target_presence, ..before }),
                self.target_presence == (TargetPresenceHold {
                    remaining_hold_frames: self.target_presence.remaining_hold_frames,
                    ..hold
                }),
                self.target_presence.remaining_hold_frames == remaining_after(
                    hold,
                    scores@.take(i as int),
                ),
                hold.well_formed() ==> self.target_presence.well_formed(),
                desired_gains@ == Seq::new(i as nat, |k: int| desired_gain(before, scores@, k)),
                similarities@ == similarities_of(scores@.take(i as int)),
            decreases scores.len() - i,
        {
            assert(scores@.take(i + 1).drop_last() =~= scores@.take(i as int));
            match scores[i] {
                None => {
                    self.target_presence.update_inactive_frame();
                    desired_gains.push(Float32 { bits: BACKGROUND_GAIN_BITS });
                },
                Some(score) => {
                    similarities.push(score.similarity);
                    let base = similarity_to_gain(
                        score.similarity,
                        self.operating_similarity_threshold,
                        self.reject_threshold,
                        score.interpolated_gain,
                    );
                    let gain = self.target_presence.update_active_frame(
                        score.similarity,
                        base,
                        score.dynamic_floor,
                    );
                    desired_gains.push(gain);
                },
            }
            assert(desired_gains@ =~= Seq::new(
                (i + 1) as nat,
                |k: int| desired_gain(before, scores@, k),
            ));
            i = i + 1;
        }
        assert(scores@.take(i as int) =~= scores@);
        FramePass { desired_gains, similarities }
    }

    /// Tells how a chunk was filtered, given the smoothed gains of its frames, and
    /// remembers the last of them.
    pub fn complete_chunk(
        &mut self,
        scores: &Vec<Option<FrameScore>>,
        similarities: &Vec<Float32>,
        smoothed_gains: &Vec<Float32>,
        means: ChunkMeans,
    ) -> (r: BasicFilterChunkMetrics)
        requires
            similarities@ == similarities_of(scores@),
            smoothed_gains@.len() == scores@.len(),
        ensures
            *final(self) == (BasicFilterEngine {
                previous_gain: if smoothed_gains@.len() > 0 {
                    Some(smoothed_gains@.last())
                } else {
                    None
                },
                ..*old(self)
            }),
            r == (BasicFilterChunkMetrics {
                analyzed_frame_count: scores@.len() as usize,
                active_frame_count: similarities_of(scores@).len() as usize,
                kept_active_frame_count: kept_count(
                    scores@,
                    smoothed_gains@,
                    scores@.len() as int,
                ) as usize,
                suppressed_active_frame_count: suppressed_count(
                    scores@,
                    smoothed_gains@,
                    scores@.len() as int,
                ) as usize,
                mean_similarity: if similarities_of(scores@).len() == 0 {
                    Float32 { bits: 0 }
                } else {
                    means.similarity
                },
                min_similarity: if similarities_of(scores@).len() == 0 {
                    Float32 { bits: 0 }
                } else {
                    least_from_one(similarities_of(scores@))
                },
                max_similarity: greatest_from_zero(similarities_of(scores@)),
                operating_similarity_threshold: old(self).operating_similarity_threshold,
                average_frame_gain: if smoothed_gains@.len() == 0 {
                    Float32 { bits: 0 }
                } else {
                    means.frame_gain
                },
                latest_similarity: last_or_zero(similarities_of(scores@)),
                latest_frame_gain: last_or_zero(smoothed_gains@),
            }),
            r.kept_active_frame_count + r.suppressed_active_frame_count <= r.active_frame_count,
            r.active_frame_count <= r.analyzed_frame_count,
            scores@.len() > 0 ==> r.latest_frame_gain == smoothed_gains@[scores@.len() - 1],
            scores@.len() > 0 && scores@.last() is Some ==> r.latest_similarity
                == scores@.last()->0.similarity,
    {
        let zero = Float32 { bits: 0 };
        let mut kept: usize = 0;
        let mut suppressed: usize = 0;
        let mut i: usize = 0;
        while i < scores.len()
            invariant
                i <= scores.len(),
                smoothed_gains@.len() == scores@.len(),
                kept == kept_count(scores@, smoothed_gains@, i as int),
                suppressed == suppressed_count(scores@, smoothed_gains@, i as int),
                kept <= i,
                suppressed <= i,
            decreases scores.len() - i,
        {
            if scores[i].is_some() {
                if smoothed_gains[i].ge(Float32 { bits: KEPT_SPEECH_GAIN_BITS }) {
                    kept = kept + 1;
                }
                if smoothed_gains[i].le(Float32 { bits: SUPPRESSED_SPEECH_GAIN_BITS }) {
                    suppressed = suppressed + 1;
                }
            }
            i = i + 1;
        }
        proof {
            lemma_counts_bounded(scores@, smoothed_gains@, scores@.len() as int);
            assert(scores@.take(scores@.len() as int) =~= scores@);
        }
        let mut min_similarity = Float32 { bits: float32::ONE_BITS };
        let mut max_similarity = zero;
        let mut j: usize = 0;
        while j < similarities.len()
            invariant
                j <= similarities.len(),
                min_similarity == least_from_one(similarities@.take(j as int)),
                max_similarity == greatest_from_zero(similarities@.take(j as int)),
            decreases similarities.len() - j,
        {
            assert(similarities@.take(j + 1).drop_last() =~= similarities@.take(j as int));
            min_similarity = min_similarity.smaller(similarities[j]);
            max_similarity = max_similarity.larger(similarities[j]);
            j = j + 1;
        }
        assert(similarities@.take(j as int) =~= similarities@);
        let mut mean_similarity = zero;
        let mut latest_similarity = zero;
        if similarities.len() > 0 {
            mean_similarity = means.similarity;
            latest_similarity = similarities[similarities.len() - 1];
        } else {
            min_similarity = zero;
        }
        let mut average_frame_gain = zero;
        let mut latest_frame_gain = zero;
        if smoothed_gains.len() > 0 {
            average_frame_gain = means.frame_gain;
            latest_frame_gain = smoothed_gains[smoothed_gains.len() - 1];
            self.previous_gain = Some(latest_frame_gain);
        } else {
            self.previous_gain = None;
        }
        BasicFilterChunkMetrics {
            analyzed_frame_count: scores.len(),
            active_frame_count: similarities.len(),
            kept_active_frame_count: kept,
            suppressed_active_frame_count: suppressed,
            mean_similarity,
            min_similarity,
            max_similarity,
            operating_similarity_threshold: self.operating_similarity_threshold,
            average_frame_gain,
            latest_similarity,
            latest_frame_gain,
        }
    }
}

/// Kept and suppressed frames are different frames, all of them with speech.
proof fn lemma_counts_bounded(scores: Seq<Option<FrameScore>>, gains: Seq<Float32>, n: int)
    requires
        0 <= n <= scores.len(),
    ensures
        kept_count(scores, gains, n) + suppressed_count(scores, gains, n) <= similarities_of(
            scores.take(n),
        ).len(),
        similarities_of(scores.take(n)).len() <= n,
    decreases n,
{
    if n > 0 {
        lemma_counts_bounded(scores, gains, n - 1);
        assert(scores.take(n).drop_last() =~= scores.take(n - 1));
        float32::lemma_scaled_order(
            Float32 { bits: SUPPRESSED_SPEECH_GAIN_BITS },
            Float32 { bits: KEPT_SPEECH_GAIN_BITS },
        );
    }
}

/// Puts the scores of the frames with speech in their places.
pub fn scores_for(decisions: &Vec<VadFrameDecision>, scores: &Vec<FrameScore>) -> (r: Vec<
    Option<FrameScore>,
>)
    requires
        scores@.len() == active_before(decisions@, decisions@.len() as int),
    ensures
        r@ == Seq::new(
            decisions@.len(),
            |i: int|
                if decisions@[i].is_active {
                    Some(scores@[active_before(decisions@, i) as int])
                } else {
                    None
                },
        ),
{
    let mut list: Vec<Option<FrameScore>> = Vec::new();
    let mut next: usize = 0;
    let mut i: usize = 0;
    let ghost all = decisions@;
    while i < decisions.len()
        invariant
            i <= decisions.len(),
            all == decisions@,
            next == active_before(all, i as int),
            scores@.len() == active_before(all, all.len() as int),
            list@ == Seq::new(
                i as nat,
                |k: int|
                    if all[k].is_active {
                        Some(scores@[active_before(all, k) as int])
                    } else {
                        None
                    },
            ),
        decreases decisions.len() - i,
    {
        proof {
            lemma_active_before_increases(all, i + 1, all.len() as int);
        }
        if decisions[i].is_active {
            assert(next < scores.len());
            list.push(Some(scores[next]));
            next = next + 1;
        } else {
            list.push(None);
        }
        i = i + 1;
        assert(list@ =~= Seq::new(
            i as nat,
            |k: int|
                if all[k].is_active {
                    Some(scores@[active_before(all, k) as int])
                } else {
                    None
                },
        ));
    }
    list
}

/// How many of the first `n` frames have speech.
pub open spec fn active_before(decisions: Seq<VadFrameDecision>, n: int) -> nat
    decreases n,
{
    if n <= 0 {
        0
    } else {
        active_before(decisions, n - 1) + if decisions[n - 1].is_active {
            1nat
        } else {
            0nat
        }
    }
}

proof fn lemma_active_before_increases(decisions: Seq<VadFrameDecision>, a: int, b: int)
    requires
        0 <= a <= b,
    ensures
        active_before(decisions, a) <= active_before(decisions, b),
    decreases b - a,
{
    if a < b {
        lemma_active_before_increases(decisions, a, b - 1);
    }
}

// ---------------------------------------------------------------------------
// Smoothing
// ---------------------------------------------------------------------------
/// How fast a gain follows.
#[derive(Debug, Clone, Copy, PartialEq, Eq, Structural)]
pub enum SmoothingRate {
    /// Downwards, fast.
    Attack,
    /// Upwards, slowly.
    Release,
}

/// How fast the gain follows from `current` to `desired`.
pub fn smoothing_rate(desired: Float32, current: Float32) -> (r: SmoothingRate)
    ensures
        r == if desired.less(current) {
            SmoothingRate::Attack
        } else {
            SmoothingRate::Release
        },
{
    if desired.lt(current) {
        SmoothingRate::Attack
    } else {
        SmoothingRate::Release
    }
}

// ---------------------------------------------------------------------------
// Filtering a file
// ---------------------------------------------------------------------------
/// What is told of a filtered file.
#[derive(Debug, Clone, Copy, PartialEq, Eq, Structural)]
pub struct OfflineBasicFilterMetrics {
    pub input_sample_rate_hz: u32,
    pub output_sample_rate_hz: u32,
    pub input_duration_seconds: Float32,
    pub output_duration_seconds: Float32,
    pub analyzed_frame_count: usize,
    pub active_frame_count: usize,
    pub kept_active_frame_count: usize,
    pub suppressed_active_frame_count: usize,
    pub mean_similarity: Float32,
    pub min_similarity: Float32,
    pub max_similarity: Float32,
    pub operating_similarity_threshold: Float32,
    pub average_frame_gain: Float32,
}

/// A filtered file.
#[derive(Debug)]
pub struct OfflineBasicFilterOutcome {
    pub output_clip: AudioClip,
    pub metrics: OfflineBasicFilterMetrics,
}

/// Filters a file as one chunk.
#[derive(Debug)]
pub struct OfflineBasicFilterProcessor;

impl Default for OfflineBasicFilterProcessor {
    fn default() -> (r: Self)
        ensures
            r == OfflineBasicFilterProcessor,
    {
        OfflineBasicFilterProcessor
    }
}

impl OfflineBasicFilterProcessor {
    /// A filtered file, from what became of its samples at the model's rate.
    pub fn process_clip(
        &self,
        input_clip: &AudioClip,
        input_duration_seconds: Float32,
        output_duration_seconds: Float32,
        chunk: BasicFilterChunkOutcome,
    ) -> (r: OfflineBasicFilterOutcome)
        ensures
            r.output_clip.sample_rate_hz == MODEL_SAMPLE_RATE,
            r.output_clip.samples == chunk.output_samples,
            r.metrics.input_sample_rate_hz == input_clip.sample_rate_hz,
            r.metrics.output_sample_rate_hz == MODEL_SAMPLE_RATE,
            r.metrics.input_duration_seconds == input_duration_seconds,
            r.metrics.output_duration_seconds == output_duration_seconds,
            r.metrics.analyzed_frame_count == chunk.metrics.analyzed_frame_count,
            r.metrics.active_frame_count == chunk.metrics.active_frame_count,
            r.metrics.kept_active_frame_count == chunk.metrics.kept_active_frame_count,
            r.metrics.suppressed_active_frame_count == chunk.metrics.suppressed_active_frame_count,
            r.metrics.mean_similarity == chunk.metrics.mean_similarity,
            r.metrics.min_similarity == chunk.metrics.min_similarity,
            r.metrics.max_similarity == chunk.metrics.max_similarity,
            r.metrics.operating_similarity_threshold == chunk.metrics.operating_similarity_threshold,
            r.metrics.average_frame_gain == chunk.metrics.average_frame_gain,
    {
        OfflineBasicFilterOutcome {
            output_clip: AudioClip {
                sample_rate_hz: MODEL_SAMPLE_RATE,
                samples: chunk.output_samples,
            },
            metrics: OfflineBasicFilterMetrics {
                input_sample_rate_hz: input_clip.sample_rate_hz,
                output_sample_rate_hz: MODEL_SAMPLE_RATE,
                input_duration_seconds,
                output_duration_seconds,
                analyzed_frame_count: chunk.metrics.analyzed_frame_count,
                active_frame_count: chunk.metrics.active_frame_count,
                kept_active_frame_count: chunk.metrics.kept_active_frame_count,
                suppressed_active_frame_count: chunk.metrics.suppressed_active_frame_count,
                mean_similarity: chunk.metrics.mean_similarity,
                min_similarity: chunk.metrics.min_similarity,
                max_similarity: chunk.metrics.max_similarity,
                operating_similarity_threshold: chunk.metrics.operating_similarity_threshold,
                average_frame_gain: chunk.metrics.average_frame_gain,
            },
        }
    }
}

// ---------------------------------------------------------------------------
// Laws
// ---------------------------------------------------------------------------
/// The operating threshold stays in its range.
pub proof fn operating_threshold_is_bounded(wanted: Float32)
    requires
        !wanted.spec_is_nan(),
    ensures
        (Float32 { bits: MIN_OPERATING_THRESHOLD_BITS }).at_most(operating_threshold(wanted)),
        operating_threshold(wanted).at_most(Float32 { bits: MAX_OPERATING_THRESHOLD_BITS }),
{
    float32::lemma_scaled_order(
        Float32 { bits: MIN_OPERATING_THRESHOLD_BITS },
        Float32 { bits: MAX_OPERATING_THRESHOLD_BITS },
    );
}

/// Holding the speaker never lowers a gain.
pub proof fn presence_never_lowers_gain(
    hold: TargetPresenceHold,
    remaining: nat,
    similarity: Float32,
    base: Float32,
    dynamic_floor: Float32,
)
    requires
        !base.spec_is_nan(),
    ensures
        base.at_most(hold.held_gain(remaining, similarity, base, dynamic_floor)),
{
}

/// However long speech goes on, the hold never outlasts its number of frames.
pub proof fn hold_is_bounded(hold: TargetPresenceHold, scores: Seq<Option<FrameScore>>)
    requires
        hold.well_formed(),
    ensures
        remaining_after(hold, scores) <= hold.hold_frames,
    decreases scores.len(),
{
    if scores.len() > 0 {
        hold_is_bounded(hold, scores.drop_last());
    }
}

/// After as many frames without speech as the hold lasts, the speaker is no
/// longer held, whatever came before.
pub proof fn silence_releases_hold(
    hold: TargetPresenceHold,
    before: Seq<Option<FrameScore>>,
    pause: Seq<Option<FrameScore>>,
)
    requires
        hold.well_formed(),
        forall|i: int| 0 <= i < pause.len() ==> pause[i] is None,
        pause.len() >= hold.hold_frames,
    ensures
        remaining_after(hold, before + pause) == 0,
{
    hold_is_bounded(hold, before);
    lemma_pause_counts_down(hold, before, pause);
}

proof fn lemma_pause_counts_down(
    hold: TargetPresenceHold,
    before: Seq<Option<FrameScore>>,
    pause: Seq<Option<FrameScore>>,
)
    requires
        forall|i: int| 0 <= i < pause.len() ==> pause[i] is None,
    ensures
        remaining_after(hold, before + pause) == if remaining_after(hold, before) > pause.len() {
            remaining_after(hold, before) - pause.len()
        } else {
            0
        },
    decreases pause.len(),
{
    if pause.len() == 0 {
        assert(before + pause =~= before);
    } else {
        assert((before + pause).drop_last() =~= before + pause.drop_last());
        assert((before + pause).last() == pause.last());
        lemma_pause_counts_down(hold, before, pause.drop_last());
    }
}

/// Once the speaker is no longer held, a frame that is not surely the speaker's
/// gets no more than its own gain.
pub proof fn released_frame_gets_its_own_gain(
    hold: TargetPresenceHold,
    scores: Seq<Option<FrameScore>>,
    score: FrameScore,
    base: Float32,
)
    requires
        remaining_after(hold, scores) == 0,
        !hold.enter_threshold.at_most(score.similarity),
    ensures
        hold.held_gain(
            remaining_after(hold, scores.push(Some(score))),
            score.similarity,
            base,
            score.dynamic_floor,
        ) == base,
{
    assert(scores.push(Some(score)).drop_last() =~= scores);
}

/// The more a frame with speech sounds like the speaker, the louder it is: where one
/// frame is no more like the speaker than another, its gain is no greater.
pub proof fn gain_rises_with_similarity(
    a: Float32,
    b: Float32,
    threshold: Float32,
    reject: Float32,
    interpolated_a: Float32,
    interpolated_b: Float32,
)
    requires
        a.at_most(b),
        (Float32 { bits: 0x3DA3_D70A }).at_most(interpolated_a),
        interpolated_a.at_most(interpolated_b),
        interpolated_b.at_most(Float32 { bits: 0x3F80_0000 }),
    ensures
        base_gain(a, threshold, reject, interpolated_a).at_most(
            base_gain(b, threshold, reject, interpolated_b),
        ),
        (Float32 { bits: 0x3DA3_D70A }).at_most(base_gain(a, threshold, reject, interpolated_a)),
        base_gain(b, threshold, reject, interpolated_b).at_most(Float32 { bits: 0x3F80_0000 }),
{
    float32::lemma_scaled_order(Float32 { bits: 0x3DA3_D70A }, Float32 { bits: 0x3F80_0000 });
}

/// Another speaker's frame, one that is too unlike and short of the threshold, has the
/// gain 0.08, whatever was interpolated for it; a frame that reaches the threshold has
/// the gain 1; one in between has the gain that was interpolated.
pub proof fn gain_is_settled_outside_transition(
    similarity: Float32,
    threshold: Float32,
    reject: Float32,
    interpolated: Float32,
)
    requires
        !similarity.spec_is_nan(),
        !threshold.spec_is_nan(),
        !reject.spec_is_nan(),
    ensures
        similarity.less(threshold) && similarity.at_most(reject) ==> base_gain(
            similarity,
            threshold,
            reject,
            interpolated,
        ).bits == 0x3DA3_D70A,
        threshold.at_most(similarity) ==> base_gain(
            similarity,
            threshold,
            reject,
            interpolated,
        ).bits == 0x3F80_0000,
        similarity.less(threshold) && reject.less(similarity) ==> base_gain(
            similarity,
            threshold,
            reject,
            interpolated,
        ) == interpolated,
{
}

/// The rejection threshold is the operating threshold less its band, but never below
/// 0.2; coming and leaving are never decided below it.
pub proof fn rejection_has_a_floor(margins: ThresholdMargins)
    requires
        !margins.less_transition.spec_is_nan(),
    ensures
        (Float32 { bits: 0x3E4C_CCCD }).at_most(reject_threshold(margins)),
        margins.less_transition.at_most(reject_threshold(margins)),
        reject_threshold(margins) == margins.less_transition || reject_threshold(margins).bits
            == 0x3E4C_CCCD,
{
}

/// An operating threshold within 0.72 and 0.93 is taken as it is wanted, and a greater
/// wish never gives a lower threshold.
pub proof fn operating_threshold_follows_profile(a: Float32, b: Float32)
    requires
        a.at_most(b),
    ensures
        operating_threshold(a).at_most(operating_threshold(b)),
        (Float32 { bits: 0x3F38_51EC }).at_most(operating_threshold(a)),
        operating_threshold(a).at_most(Float32 { bits: 0x3F6E_147B }),
        (Float32 { bits: 0x3F38_51EC }).at_most(a) && a.at_most(Float32 { bits: 0x3F6E_147B })
            ==> operating_threshold(a) == a,
        a.less(Float32 { bits: 0x3F38_51EC }) ==> operating_threshold(a).bits == 0x3F38_51EC,
        (Float32 { bits: 0x3F6E_147B }).less(a) ==> operating_threshold(a).bits == 0x3F6E_147B,
{
    float32::lemma_scaled_order(Float32 { bits: 0x3F38_51EC }, Float32 { bits: 0x3F6E_147B });
}

/// A frame of the speaker, one that reaches the threshold, passes in full, whether the
/// speaker was there before or not.
pub proof fn the_speaker_passes_in_full(
    engine: BasicFilterEngine,
    scores: Seq<Option<FrameScore>>,
    i: int,
)
    requires
        0 <= i < scores.len(),
        scores[i] matches Some(score) && engine.operating_similarity_threshold.at_most(
            score.similarity,
        ) && score.dynamic_floor.at_most(Float32 { bits: 0x3F80_0000 }),
    ensures
        desired_gain(engine, scores, i).bits == 0x3F80_0000,
{
}

/// A frame of another speaker, one that is at or below the rejection threshold, short of
/// the operating threshold and short of the threshold for leaving, is held down to 0.08,
/// even while the speaker counts as present.
pub proof fn other_speakers_are_held_down(
    engine: BasicFilterEngine,
    scores: Seq<Option<FrameScore>>,
    i: int,
)
    requires
        0 <= i < scores.len(),
        scores[i] matches Some(score) && score.similarity.at_most(engine.reject_threshold)
            && score.similarity.less(engine.operating_similarity_threshold)
            && score.similarity.less(engine.target_presence.exit_threshold),
    ensures
        desired_gain(engine, scores, i).bits == 0x3DA3_D70A,
{
}

/// A frame without speech has the gain 0.03, and no frame with speech is as quiet, nor
/// louder than it came in.
pub proof fn background_is_quietest(
    engine: BasicFilterEngine,
    scores: Seq<Option<FrameScore>>,
    i: int,
    j: int,
)
    requires
        0 <= i < scores.len(),
        0 <= j < scores.len(),
        scores[i] is None,
        scores[j] matches Some(score) && (Float32 { bits: 0x3DA3_D70A }).at_most(
            score.interpolated_gain,
        ) && score.interpolated_gain.at_most(Float32 { bits: 0x3F80_0000 })
            && score.dynamic_floor.at_most(Float32 { bits: 0x3F80_0000 }),
    ensures
        desired_gain(engine, scores, i).bits == 0x3CF5_C28F,
        desired_gain(engine, scores, i).less(desired_gain(engine, scores, j)),
        desired_gain(engine, scores, j).at_most(Float32 { bits: 0x3F80_0000 }),
{
    let low = Float32 { bits: 0x3CF5_C28F };
    let least = Float32 { bits: 0x3DA3_D70A };
    let one = Float32 { bits: 0x3F80_0000 };
    float32::lemma_scaled_order(low, least);
    float32::lemma_scaled_order(least, one);
}

/// A sure frame holds the speaker in full, whatever came before. From there every frame
/// without speech and every frame that is too unlike takes one off, and a frame that is
/// like enough takes nothing off.
pub proof fn hold_is_refreshed_and_spent(
    hold: TargetPresenceHold,
    before: Seq<Option<FrameScore>>,
    frame: Option<FrameScore>,
)
    requires
        frame matches Some(score) ==> !score.similarity.spec_is_nan(),
        !hold.enter_threshold.spec_is_nan(),
        !hold.exit_threshold.spec_is_nan(),
    ensures
        ({
            let then = remaining_after(hold, before);
            let now = remaining_after(hold, before.push(frame));
            match frame {
                None => now + 1 == then || (now == 0 && then == 0),
                Some(score) => {
                    &&& hold.enter_threshold.at_most(score.similarity) ==> now == hold.hold_frames
                    &&& score.similarity.less(hold.enter_threshold) && hold.exit_threshold.at_most(
                        score.similarity,
                    ) ==> now == then
                    &&& score.similarity.less(hold.enter_threshold) && score.similarity.less(
                        hold.exit_threshold,
                    ) ==> now + 1 == then || (now == 0 && then == 0)
                },
            }
        }),
        remaining_after(hold, Seq::<Option<FrameScore>>::empty()) == hold.remaining_hold_frames,
{
    assert(before.push(frame).drop_last() =~= before);
}

/// While the speaker is held, a frame that is like enough has at least its floor; a frame
/// that is too unlike has no more than its own gain.
pub proof fn held_frames_keep_their_floor(
    hold: TargetPresenceHold,
    remaining: nat,
    similarity: Float32,
    base: Float32,
    dynamic_floor: Float32,
)
    requires
        remaining > 0,
        !base.spec_is_nan(),
        !dynamic_floor.spec_is_nan(),
    ensures
        hold.exit_threshold.at_most(similarity) ==> dynamic_floor.at_most(
            hold.held_gain(remaining, similarity, base, dynamic_floor),
        ) && base.at_most(hold.held_gain(remaining, similarity, base, dynamic_floor)) && (
        hold.held_gain(remaining, similarity, base, dynamic_floor) == base || hold.held_gain(
            remaining,
            similarity,
            base,
            dynamic_floor,
        ) == dynamic_floor),
        !hold.exit_threshold.at_most(similarity) ==> hold.held_gain(
            remaining,
            similarity,
            base,
            dynamic_floor,
        ) == base,
{
}

/// The context of a frame is all of the signal that lies within 3200 samples of the
/// frame's centre.
pub proof fn context_is_around_centre(frame: AudioFrame, sample_count: int, sample: int)
    requires
        frame.start_sample <= frame.end_sample <= sample_count <= usize::MAX,
        0 <= sample < sample_count,
    ensures
        frames::holds_sample(context_of(frame, sample_count), sample) <==> {
            let centre = (frame.start_sample + frame.end_sample) / 2;
            centre - 3200 <= sample < centre + 3200
        },
{
}

/// The similarities of a chunk are those of its frames with speech, each once and in
/// order, however the chunk is cut in two.
pub proof fn similarities_follow_frames(
    left: Seq<Option<FrameScore>>,
    right: Seq<Option<FrameScore>>,
    frame: Option<FrameScore>,
)
    ensures
        similarities_of(left + right) == similarities_of(left) + similarities_of(right),
        similarities_of(seq![frame]) == match frame {
            Some(score) => seq![score.similarity],
            None => seq![],
        },
    decreases right.len(),
{
    reveal_with_fuel(similarities_of, 2);
    let one = seq![frame];
    assert(one.drop_last() =~= Seq::<Option<FrameScore>>::empty());
    if right.len() == 0 {
        assert(left + right =~= left);
        assert(similarities_of(left) + similarities_of(right) =~= similarities_of(left));
    } else {
        similarities_follow_frames(left, right.drop_last(), frame);
        assert((left + right).drop_last() =~= left + right.drop_last());
        assert((left + right).last() == right.last());
        assert(similarities_of(left + right) =~= similarities_of(left) + similarities_of(right));
    }
}

/// One frame more counts as kept exactly where it holds speech at a gain of 0.75 or more,
/// and as suppressed exactly where it holds speech at a gain of 0.2 or less.
pub proof fn kept_and_suppressed_frames_are_counted(
    scores: Seq<Option<FrameScore>>,
    gains: Seq<Float32>,
    n: int,
)
    requires
        0 <= n < scores.len(),
        gains.len() == scores.len(),
        !gains[n].spec_is_nan(),
    ensures
        kept_count(scores, gains, 0) == 0,
        suppressed_count(scores, gains, 0) == 0,
        kept_count(scores, gains, n + 1) - kept_count(scores, gains, n) == if scores[n] is Some
            && !gains[n].less(Float32 { bits: 0x3F40_0000 }) {
            1int
        } else {
            0int
        },
        suppressed_count(scores, gains, n + 1) - suppressed_count(scores, gains, n)
            == if scores[n] is Some && !(Float32 { bits: 0x3E4C_CCCD }).less(gains[n]) {
            1int
        } else {
            0int
        },
{
}

/// The least and the greatest similarity bound all of them; each is one of them, or where
/// counting starts.
pub proof fn extremes_bound_similarities(similarities: Seq<Float32>, i: int)
    requires
        0 <= i < similarities.len(),
        forall|k: int| 0 <= k < similarities.len() ==> !(#[trigger] similarities[k]).spec_is_nan(),
    ensures
        least_from_one(similarities).at_most(similarities[i]),
        similarities[i].at_most(greatest_from_zero(similarities)),
        least_from_one(similarities).bits == 0x3F80_0000 || similarities.contains(
            least_from_one(similarities),
        ),
        greatest_from_zero(similarities).bits == 0 || similarities.contains(
            greatest_from_zero(similarities),
        ),
        least_from_one(similarities).at_most(Float32 { bits: 0x3F80_0000 }),
        (Float32 { bits: 0 }).at_most(greatest_from_zero(similarities)),
    decreases similarities.len(),
{
    let rest = similarities.drop_last();
    assert forall|k: int| 0 <= k < rest.len() implies !(#[trigger] rest[k]).spec_is_nan() by {
        assert(rest[k] == similarities[k]);
    }
    assert(similarities[similarities.len() - 1] == similarities.last());
    assert(similarities.contains(similarities.last()));
    if rest.len() > 0 {
        let k = if i < rest.len() {
            i
        } else {
            0
        };
        extremes_bound_similarities(rest, k);
        assert forall|x: Float32| rest.contains(x) implies similarities.contains(x) by {
            let at = choose|at: int| 0 <= at < rest.len() && rest[at] == x;
            assert(similarities[at] == x);
        }
    } else {
        assert(least_from_one(rest).bits == 0x3F80_0000);
        assert(greatest_from_zero(rest).bits == 0);
    }
}

/// A profile can be filtered by exactly where it has an embedding, a centroid, and a
/// centroid of the size that it states.
pub proof fn usable_profiles_have_a_voice(profile: SpeakerProfile)
    requires
        profile.centroid@.len() <= usize::MAX,
    ensures
        profile_obstacle(profile) is None <==> (profile.embedding_count > 0
            && profile.centroid@.len() > 0 && profile.embedding_dimension is Some
            && profile.embedding_dimension->0 == profile.centroid@.len()),
        profile_obstacle(profile) == Some(FilterError::ProfileWithoutEmbedding) <==> (
        profile.embedding_count == 0 || profile.centroid@.len() == 0),
{
}

/// An engine has all references, in order, or none: none as soon as one recording failed.
pub proof fn references_are_all_or_none(extracted: Seq<Result<Vec<Float32>, String>>, i: int)
    requires
        0 <= i < extracted.len(),
    ensures
        extracted[i] is Err ==> references(extracted).len() == 0,
        references(extracted).len() == extracted.len() || references(extracted).len() == 0,
        references(extracted).len() > 0 ==> extracted[i] == Ok::<Vec<Float32>, String>(
            references(extracted)[i],
        ),
        (forall|k: int| 0 <= k < extracted.len() ==> (#[trigger] extracted[k]) is Ok)
            ==> references(extracted).len() == extracted.len(),
{
}

/// The scores of a chunk are handed to its frames with speech in the order in which they
/// were calculated: reading the similarities back gives those of the scores.
pub proof fn scores_keep_their_order(
    decisions: Seq<VadFrameDecision>,
    scores: Seq<FrameScore>,
    placed: Seq<Option<FrameScore>>,
)
    requires
        scores.len() == active_before(decisions, decisions.len() as int),
        placed == Seq::new(
            decisions.len(),
            |i: int|
                if decisions[i].is_active {
                    Some(scores[active_before(decisions, i) as int])
                } else {
                    None
                },
        ),
    ensures
        similarities_of(placed) == scores.map_values(|score: FrameScore| score.similarity),
        forall|i: int| 0 <= i < placed.len() ==> ((#[trigger] placed[i]) is Some
            <==> decisions[i].is_active),
{
    lemma_placed_prefix(decisions, scores, placed, decisions.len() as int);
    assert(placed.take(decisions.len() as int) =~= placed);
    assert(scores.take(scores.len() as int) =~= scores);
}

proof fn lemma_placed_prefix(
    decisions: Seq<VadFrameDecision>,
    scores: Seq<FrameScore>,
    placed: Seq<Option<FrameScore>>,
    n: int,
)
    requires
        0 <= n <= decisions.len(),
        scores.len() == active_before(decisions, decisions.len() as int),
        placed == Seq::new(
            decisions.len(),
            |i: int|
                if decisions[i].is_active {
                    Some(scores[active_before(decisions, i) as int])
                } else {
                    None
                },
        ),
    ensures
        active_before(decisions, n) <= scores.len(),
        similarities_of(placed.take(n)) == scores.take(active_before(decisions, n) as int).map_values(
            |score: FrameScore| score.similarity,
        ),
    decreases n,
{
    lemma_active_before_increases(decisions, n, decisions.len() as int);
    if n > 0 {
        lemma_placed_prefix(decisions, scores, placed, n - 1);
        assert(placed.take(n).drop_last() =~= placed.take(n - 1));
        assert(placed.take(n).last() == placed[n - 1]);
    }
    assert(similarities_of(placed.take(n)) =~= scores.take(
        active_before(decisions, n) as int,
    ).map_values(|score: FrameScore| score.similarity));
}

/// What is told as latest is the last value of the chunk, or zero where there is none.
pub proof fn latest_is_the_last(values: Seq<Float32>, value: Float32)
    ensures
        last_or_zero(values.push(value)) == value,
        values.len() == 0 ==> last_or_zero(values).bits == 0,
{
}

/// What follows a frame does not change its gain: it is settled by the frames up to it.
pub proof fn later_frames_change_no_gain(
    engine: BasicFilterEngine,
    scores: Seq<Option<FrameScore>>,
    more: Seq<Option<FrameScore>>,
    i: int,
)
    requires
        0 <= i < scores.len(),
    ensures
        desired_gain(engine, scores + more, i) == desired_gain(engine, scores, i),
        desired_gain(engine, scores.take(i + 1), i) == desired_gain(engine, scores, i),
{
    assert((scores + more).take(i + 1) =~= scores.take(i + 1));
    assert(scores.take(i + 1).take(i + 1) =~= scores.take(i + 1));
}

} // verus!
