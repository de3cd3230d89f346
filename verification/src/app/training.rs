//! The steps of the guided enrollment.

use crate::profile::record::RecordingTakeKind;
use crate::util::text;
use vstd::prelude::*;

verus! {

/// A step of the guided enrollment.
#[derive(Debug, Clone, Copy, PartialEq, Eq, Structural)]
pub enum TrainingStep {
    Preparation,
    AmbientSilence,
    FixedPromptPreparation { index: usize },
    FixedPrompt { index: usize },
    FreeSpeechPreparation,
    FreeSpeech,
    ReviewRerecordPreparation { kind: RecordingTakeKind },
    ReviewRerecord { kind: RecordingTakeKind },
    Review,
}

impl Default for TrainingStep {
    fn default() -> (r: Self)
        ensures
            r == TrainingStep::Preparation,
    {
        TrainingStep::Preparation
    }
}

/// How many steps the whole flow has: a preparation and a recording for every
/// prompt and for the free speech, the ambient take, and one step at either end.
pub open spec fn step_count(prompt_count: nat) -> nat {
    prompt_count * 2 + 5
}

impl TrainingStep {
    /// Whether the step belongs to recording one take again.
    pub open spec fn spec_is_rerecord(self) -> bool {
        self is ReviewRerecordPreparation || self is ReviewRerecord
    }

    /// The number of the step, counted from one.
    pub open spec fn spec_position(self, prompt_count: nat) -> nat {
        match self {
            TrainingStep::Preparation => 1,
            TrainingStep::AmbientSilence => 2,
            TrainingStep::FixedPromptPreparation { index } => index as nat * 2 + 3,
            TrainingStep::FixedPrompt { index } => index as nat * 2 + 4,
            TrainingStep::FreeSpeechPreparation => prompt_count * 2 + 3,
            TrainingStep::FreeSpeech => prompt_count * 2 + 4,
            TrainingStep::ReviewRerecordPreparation { .. } => 1,
            TrainingStep::ReviewRerecord { .. } => 2,
            TrainingStep::Review => prompt_count * 2 + 5,
        }
    }

    /// The step that follows.
    pub open spec fn spec_advance(self, prompt_count: nat) -> TrainingStep {
        match self {
            TrainingStep::Preparation => TrainingStep::AmbientSilence,
            TrainingStep::AmbientSilence => TrainingStep::FixedPromptPreparation { index: 0 },
            TrainingStep::FixedPromptPreparation { index } => TrainingStep::FixedPrompt { index },
            TrainingStep::FixedPrompt { index } => if index + 1 < prompt_count {
                TrainingStep::FixedPromptPreparation { index: (index + 1) as usize }
            } else {
                TrainingStep::FreeSpeechPreparation
            },
            TrainingStep::FreeSpeechPreparation => TrainingStep::FreeSpeech,
            TrainingStep::FreeSpeech => TrainingStep::Review,
            TrainingStep::ReviewRerecordPreparation { kind } => TrainingStep::ReviewRerecord {
                kind,
            },
            TrainingStep::ReviewRerecord { .. } => TrainingStep::Review,
            TrainingStep::Review => TrainingStep::Review,
        }
    }

    /// The step at which the previous prompt is prepared again, if there is one.
    pub open spec fn spec_retry(self, prompt_count: nat) -> Option<TrainingStep> {
        let previous: int = match self {
            TrainingStep::FixedPromptPreparation { index } => index - 1,
            TrainingStep::FixedPrompt { index } => index - 1,
            TrainingStep::FreeSpeechPreparation => prompt_count - 1,
            TrainingStep::FreeSpeech => prompt_count - 1,
            _ => -1,
        };
        if previous >= 0 {
            Some(TrainingStep::FixedPromptPreparation { index: previous as usize })
        } else {
            None
        }
    }

    /// What is recorded in the step, if anything.
    pub open spec fn spec_take(self) -> Option<RecordingTakeKind> {
        match self {
            TrainingStep::AmbientSilence => Some(RecordingTakeKind::AmbientSilence),
            TrainingStep::FixedPrompt { index } => Some(RecordingTakeKind::FixedPrompt { index }),
            TrainingStep::FreeSpeech => Some(RecordingTakeKind::FreeSpeech),
            TrainingStep::ReviewRerecord { kind } => Some(kind),
            _ => None,
        }
    }

    pub open spec fn spec_title(self) -> Seq<char> {
        match self {
            TrainingStep::Preparation => "训练准备"@,
            TrainingStep::AmbientSilence => "环境静音"@,
            TrainingStep::FixedPromptPreparation { .. } => "固定短句准备"@,
            TrainingStep::FixedPrompt { .. } => "固定短句"@,
            TrainingStep::FreeSpeechPreparation => "自由发挥准备"@,
            TrainingStep::FreeSpeech => "自由发挥"@,
            TrainingStep::ReviewRerecordPreparation { kind } => "重录 "@ + kind.spec_short_label()
                + "准备"@,
            TrainingStep::ReviewRerecord { kind } => "重录 "@ + kind.spec_short_label(),
            TrainingStep::Review => "完成确认"@,
        }
    }

    /// Whether the step occurs in an enrollment with `prompt_count` prompts.
    pub open spec fn occurs(self, prompt_count: nat) -> bool {
        match self {
            TrainingStep::FixedPromptPreparation { index } => index < prompt_count,
            TrainingStep::FixedPrompt { index } => index < prompt_count,
            TrainingStep::ReviewRerecordPreparation { kind } => kind.is_expected(prompt_count),
            TrainingStep::ReviewRerecord { kind } => kind.is_expected(prompt_count),
            _ => true,
        }
    }

    /// How many steps the whole flow has.
    pub fn total_steps(prompt_count: usize) -> (r: usize)
        requires
            step_count(prompt_count as nat) <= usize::MAX,
        ensures
            r == step_count(prompt_count as nat),
    {
        prompt_count * 2 + 5
    }

    /// How many steps the flow has to which this step belongs: recording one take
    /// again has two.
    pub fn flow_total_steps(self, prompt_count: usize) -> (r: usize)
        requires
            step_count(prompt_count as nat) <= usize::MAX,
        ensures
            r == if self.spec_is_rerecord() {
                2
            } else {
                step_count(prompt_count as nat)
            },
    {
        if self.is_review_rerecord_flow() {
            2
        } else {
            TrainingStep::total_steps(prompt_count)
        }
    }

    /// The number of the step in its flow.
    pub fn position(self, prompt_count: usize) -> (r: usize)
        requires
            self.spec_position(prompt_count as nat) <= usize::MAX,
        ensures
            r == self.spec_position(prompt_count as nat),
    {
        match self {
            TrainingStep::Preparation => 1,
            TrainingStep::AmbientSilence => 2,
            TrainingStep::FixedPromptPreparation { index } => index * 2 + 3,
            TrainingStep::FixedPrompt { index } => index * 2 + 4,
            TrainingStep::FreeSpeechPreparation => prompt_count * 2 + 3,
            TrainingStep::FreeSpeech => prompt_count * 2 + 4,
            TrainingStep::ReviewRerecordPreparation { .. } => 1,
            TrainingStep::ReviewRerecord { .. } => 2,
            TrainingStep::Review => prompt_count * 2 + 5,
        }
    }

    /// What the step is called.
    pub fn title(self) -> (r: String)
        ensures
            r@ == self.spec_title(),
    {
        match self {
            TrainingStep::Preparation => "训练准备".to_owned(),
            TrainingStep::AmbientSilence => "环境静音".to_owned(),
            TrainingStep::FixedPromptPreparation { .. } => "固定短句准备".to_owned(),
            TrainingStep::FixedPrompt { .. } => "固定短句".to_owned(),
            TrainingStep::FreeSpeechPreparation => "自由发挥准备".to_owned(),
            TrainingStep::FreeSpeech => "自由发挥".to_owned(),
            TrainingStep::ReviewRerecordPreparation { kind } => {
                text::joined3("重录 ", kind.short_label(), "准备")
            },
            TrainingStep::ReviewRerecord { kind } => text::joined("重录 ", kind.short_label()),
            TrainingStep::Review => "完成确认".to_owned(),
        }
    }

    /// The step that follows.
    pub fn advance(self, prompt_count: usize) -> (r: Self)
        ensures
            r == self.spec_advance(prompt_count as nat),
    {
        match self {
            TrainingStep::Preparation => TrainingStep::AmbientSilence,
            TrainingStep::AmbientSilence => TrainingStep::FixedPromptPreparation { index: 0 },
            TrainingStep::FixedPromptPreparation { index } => TrainingStep::FixedPrompt { index },
            TrainingStep::FixedPrompt { index } => {
                if prompt_count > 0 && index < prompt_count - 1 {
                    TrainingStep::FixedPromptPreparation { index: index + 1 }
                } else {
                    TrainingStep::FreeSpeechPreparation
                }
            },
            TrainingStep::FreeSpeechPreparation => TrainingStep::FreeSpeech,
            TrainingStep::FreeSpeech => TrainingStep::Review,
            TrainingStep::ReviewRerecordPreparation { kind } => TrainingStep::ReviewRerecord {
                kind,
            },
            TrainingStep::ReviewRerecord { .. } => TrainingStep::Review,
            TrainingStep::Review => TrainingStep::Review,
        }
    }

    /// The step at which the previous prompt is prepared again, if there is one.
    pub fn retry_previous_prompt(self, prompt_count: usize) -> (r: Option<Self>)
        ensures
            r == self.spec_retry(prompt_count as nat),
    {
        match self {
            TrainingStep::FixedPromptPreparation { index } => {
                if index > 0 {
                    Some(TrainingStep::FixedPromptPreparation { index: index - 1 })
                } else {
                    None
                }
            },
            TrainingStep::FixedPrompt { index } => {
                if index > 0 {
                    Some(TrainingStep::FixedPromptPreparation { index: index - 1 })
                } else {
                    None
                }
            },
            TrainingStep::FreeSpeechPreparation | TrainingStep::FreeSpeech => {
                if prompt_count > 0 {
                    Some(TrainingStep::FixedPromptPreparation { index: prompt_count - 1 })
                } else {
                    None
                }
            },
            _ => None,
        }
    }

    /// What is recorded in the step, if anything.
    pub fn recording_take_kind(self) -> (r: Option<RecordingTakeKind>)
        ensures
            r == self.spec_take(),
    {
        match self {
            TrainingStep::AmbientSilence => Some(RecordingTakeKind::AmbientSilence),
            TrainingStep::FixedPrompt { index } => Some(RecordingTakeKind::FixedPrompt { index }),
            TrainingStep::FreeSpeech => Some(RecordingTakeKind::FreeSpeech),
            TrainingStep::ReviewRerecord { kind } => Some(kind),
            _ => None,
        }
    }

    /// Whether something is recorded in the step.
    pub fn is_recording_phase(self) -> (r: bool)
        ensures
            r == (self.spec_take() is Some),
    {
        self.recording_take_kind().is_some()
    }

    /// Whether the step belongs to recording one take again.
    pub fn is_review_rerecord_flow(self) -> (r: bool)
        ensures
            r == self.spec_is_rerecord(),
    {
        match self {
            TrainingStep::ReviewRerecordPreparation { .. } => true,
            TrainingStep::ReviewRerecord { .. } => true,
            _ => false,
        }
    }
}

/// The step that is reached after `n` steps forward.
pub open spec fn after_steps(step: TrainingStep, prompt_count: nat, n: nat) -> TrainingStep
    decreases n,
{
    if n == 0 {
        step
    } else {
        after_steps(step, prompt_count, (n - 1) as nat).spec_advance(prompt_count)
    }
}

/// Every step of the main flow leads to the step with the next number; only the
/// last one stays.
pub proof fn advance_counts_on(step: TrainingStep, prompt_count: nat)
    requires
        0 < prompt_count <= usize::MAX,
        step.occurs(prompt_count),
        !step.spec_is_rerecord(),
    ensures
        step != TrainingStep::Review ==> step.spec_advance(prompt_count).spec_position(
            prompt_count,
        ) == step.spec_position(prompt_count) + 1,
        step.spec_advance(prompt_count).occurs(prompt_count),
        !step.spec_advance(prompt_count).spec_is_rerecord(),
        step.spec_position(prompt_count) <= step_count(prompt_count),
        step.spec_position(prompt_count) == step_count(prompt_count) <==> step
            == TrainingStep::Review,
{
}

/// The guided flow passes through its steps one by one and ends at the review,
/// where it stays.
pub proof fn flow_walks_to_review(prompt_count: nat, n: nat)
    requires
        0 < prompt_count <= usize::MAX,
    ensures
        ({
            let step = after_steps(TrainingStep::Preparation, prompt_count, n);
            &&& step.occurs(prompt_count)
            &&& !step.spec_is_rerecord()
            &&& n < step_count(prompt_count) ==> step.spec_position(prompt_count) == n + 1
            &&& n + 1 >= step_count(prompt_count) ==> step == TrainingStep::Review
        }),
    decreases n,
{
    if n > 0 {
        flow_walks_to_review(prompt_count, (n - 1) as nat);
        advance_counts_on(
            after_steps(TrainingStep::Preparation, prompt_count, (n - 1) as nat),
            prompt_count,
        );
    }
    advance_counts_on(after_steps(TrainingStep::Preparation, prompt_count, n), prompt_count);
}

/// The guided flow records every take that the enrollment asks for: the step for
/// it comes up on the way from the first step to the review.
pub proof fn flow_records_every_take(prompt_count: nat, kind: RecordingTakeKind) -> (n: nat)
    requires
        0 < prompt_count <= usize::MAX,
        kind.is_expected(prompt_count),
    ensures
        n < step_count(prompt_count),
        after_steps(TrainingStep::Preparation, prompt_count, n).spec_take() == Some(kind),
{
    let step = match kind {
        RecordingTakeKind::AmbientSilence => TrainingStep::AmbientSilence,
        RecordingTakeKind::FixedPrompt { index } => TrainingStep::FixedPrompt { index },
        RecordingTakeKind::FreeSpeech => TrainingStep::FreeSpeech,
    };
    let n = (step.spec_position(prompt_count) - 1) as nat;
    flow_walks_to_review(prompt_count, n);
    lemma_position_tells_step(
        after_steps(TrainingStep::Preparation, prompt_count, n),
        step,
        prompt_count,
    );
    n
}

/// In the main flow no two steps share a number.
pub proof fn lemma_position_tells_step(a: TrainingStep, b: TrainingStep, prompt_count: nat)
    requires
        a.occurs(prompt_count),
        b.occurs(prompt_count),
        !a.spec_is_rerecord(),
        !b.spec_is_rerecord(),
        a.spec_position(prompt_count) == b.spec_position(prompt_count),
    ensures
        a == b,
{
}

/// Retrying goes back to the preparation of the prompt before, and the step after
/// that records it.
pub proof fn retry_goes_back(step: TrainingStep, prompt_count: nat)
    requires
        prompt_count <= usize::MAX,
        step.occurs(prompt_count),
        step.spec_retry(prompt_count) is Some,
    ensures
        ({
            let back = step.spec_retry(prompt_count)->0;
            &&& back.occurs(prompt_count)
            &&& back is FixedPromptPreparation
            &&& back.spec_position(prompt_count) < step.spec_position(prompt_count)
            &&& step.spec_position(prompt_count) - back.spec_position(prompt_count) <= 3
            &&& back.spec_advance(prompt_count).spec_take() == Some(
                RecordingTakeKind::FixedPrompt { index: back->FixedPromptPreparation_index },
            )
        }),
{
}

/// Recording one take again takes two steps and leads back to the review.
pub proof fn rerecording_returns_to_review(kind: RecordingTakeKind, prompt_count: nat)
    ensures
        ({
            let start = TrainingStep::ReviewRerecordPreparation { kind };
            &&& after_steps(start, prompt_count, 1).spec_take() == Some(kind)
            &&& after_steps(start, prompt_count, 2) == TrainingStep::Review
        }),
{
    reveal_with_fuel(after_steps, 3);
}

} // verus!
