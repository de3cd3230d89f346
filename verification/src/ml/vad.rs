//! Voice activity: which frames count as speech.

use crate::pipeline::frames::AudioFrame;
use crate::util::float32::Float32;
use vstd::prelude::*;

verus! {

/// How many frames after a loud one still count as speech.
pub const HANGOVER_FRAMES: usize = 3;

/// A frame and whether it counts as speech.
#[derive(Debug, Clone, Copy)]
pub struct VadFrameDecision {
    pub frame: AudioFrame,
    pub is_active: bool,
}

/// Tells speech by its level.
#[derive(Debug, Clone, Copy)]
pub struct VadEngine {
    pub activity_threshold_dbfs: Float32,
    pub hangover_frames: usize,
}

/// Whether frame `i` counts as speech: it, or one of the `hangover` frames
/// before it, reaches the threshold.
pub open spec fn is_speech(
    levels: Seq<Float32>,
    threshold: Float32,
    hangover: nat,
    i: int,
) -> bool {
    exists|j: int| 0 <= j <= i && i - j <= hangover && threshold.at_most(#[trigger] levels[j])
}

impl VadEngine {
    pub fn new(activity_threshold_dbfs: Float32) -> (r: Self)
        ensures
            r.activity_threshold_dbfs == activity_threshold_dbfs,
            r.hangover_frames == HANGOVER_FRAMES,
    {
        VadEngine { activity_threshold_dbfs, hangover_frames: HANGOVER_FRAMES }
    }

    /// Decides for every frame, given the level of each in dBFS.
    pub fn analyze(&self, frames: &Vec<AudioFrame>, levels: &Vec<Float32>) -> (r: Vec<
        VadFrameDecision,
    >)
        requires
            frames@.len() == levels@.len(),
        ensures
            r@.len() == frames@.len(),
            forall|i: int|
                0 <= i < r@.len() ==> (#[trigger] r@[i]).frame == frames@[i] && (r@[i].is_active
                    <==> is_speech(
                    levels@,
                    self.activity_threshold_dbfs,
                    self.hangover_frames as nat,
                    i,
                )),
    {
        let mut decisions: Vec<VadFrameDecision> = Vec::new();
        let mut hangover: usize = 0;
        let mut i: usize = 0;
        let ghost threshold = self.activity_threshold_dbfs;
        let ghost h = self.hangover_frames as int;
        // The last frame so far that reached the threshold.
        let ghost mut last: int = -1;
        while i < frames.len()
            invariant
                i <= frames.len(),
                frames@.len() == levels@.len(),
                threshold == self.activity_threshold_dbfs,
                h == self.hangover_frames,
                decisions@.len() == i,
                -1 <= last < i,
                last >= 0 ==> threshold.at_most(levels@[last]),
                forall|j: int| last < j < i ==> !threshold.at_most(#[trigger] levels@[j]),
                hangover == if last < 0 || i - 1 - last > h {
                    0
                } else {
                    h - (i - 1 - last)
                },
                forall|k: int|
                    0 <= k < i ==> (#[trigger] decisions@[k]).frame == frames@[k]
                        && (decisions@[k].is_active <==> is_speech(
                        levels@,
                        threshold,
                        h as nat,
                        k,
                    )),
            decreases frames.len() - i,
        {
            let is_active;
            if levels[i].ge(self.activity_threshold_dbfs) {
                hangover = self.hangover_frames;
                is_active = true;
                proof {
                    last = i as int;
                }
            } else if hangover > 0 {
                hangover = hangover - 1;
                is_active = true;
            } else {
                is_active = false;
            }
            assert(is_active <==> is_speech(levels@, threshold, h as nat, i as int)) by {
                if is_active {
                    assert(threshold.at_most(levels@[last]));
                }
            }
            decisions.push(VadFrameDecision { frame: frames[i], is_active });
            i = i + 1;
        }
        decisions
    }

    pub fn activity_threshold_dbfs(&self) -> (r: Float32)
        ensures
            r == self.activity_threshold_dbfs,
    {
        self.activity_threshold_dbfs
    }
}

/// A frame that reaches the threshold counts as speech, and so do the frames after it for
/// as long as the hangover lasts; a frame further off from every such frame does not.
pub proof fn speech_outlasts_loud_frames(
    levels: Seq<Float32>,
    threshold: Float32,
    hangover: nat,
    loud: int,
    i: int,
)
    requires
        0 <= loud <= i < levels.len(),
        threshold.at_most(levels[loud]),
    ensures
        i - loud <= hangover ==> is_speech(levels, threshold, hangover, i),
        i - loud > hangover && (forall|j: int|
            loud < j <= i ==> !threshold.at_most(#[trigger] levels[j])) ==> !is_speech(
            levels,
            threshold,
            hangover,
            i,
        ),
{
}

/// Where no frame so far reaches the threshold, none counts as speech.
pub proof fn silence_is_no_speech(
    levels: Seq<Float32>,
    threshold: Float32,
    hangover: nat,
    i: int,
)
    requires
        0 <= i < levels.len(),
        forall|j: int| 0 <= j <= i ==> !threshold.at_most(#[trigger] levels[j]),
    ensures
        !is_speech(levels, threshold, hangover, i),
{
}

/// A lower threshold never turns speech into silence.
pub proof fn lower_threshold_hears_more(
    levels: Seq<Float32>,
    low: Float32,
    high: Float32,
    hangover: nat,
    i: int,
)
    requires
        low.at_most(high),
        is_speech(levels, high, hangover, i),
    ensures
        is_speech(levels, low, hangover, i),
{
    let j = choose|j: int|
        0 <= j <= i && i - j <= hangover && high.at_most(#[trigger] levels[j]);
    assert(low.at_most(levels[j]));
}

} // verus!
