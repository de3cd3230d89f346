//! The training page.

use crate::app::commands::AppCommand;
use crate::app::state::{
    AppState, RESTART_TRAINING_CONFIRMATION_CLICKS, RETRY_PREVIOUS_PROMPT_CONFIRMATION_CLICKS,
    REVIEW_SUMMARY_RERECORD_CONFIRMATION_CLICKS,
};
use crate::app::state;
use crate::app::training::TrainingStep;
use crate::app::training;
use crate::pipeline::realtime::RuntimeStage;
use crate::profile::quality::{ClipQualityReport, QualityIssue, QualityReport, QualitySeverity};
use crate::profile::quality;
use crate::profile::record::{FREE_SPEECH_SECONDS, RecordedClip, RecordingTakeKind};
use crate::profile::record;
use crate::profile::storage::DEFAULT_PROFILE_ID;
use crate::ui::lines::{Line, Tone, fraction_text, say, say_error, say_str};
use crate::ui::lines;
use crate::util::float32::Float32;
use crate::util::text;
use vstd::prelude::*;

verus! {

/// 0.55: an input level below is low.
pub const MIDDLE_LEVEL_BITS: u32 = 0x3F0C_CCCD;

/// 0.82: an input level from here on is too high.
pub const HIGH_LEVEL_BITS: u32 = 0x3F51_EB85;

/// Whether the page can show the state: its step occurs in the enrollment, and its
/// steps can be counted.
pub open spec fn showable(state: AppState) -> bool {
    &&& state.training_step.occurs(state.prompt_count())
    &&& training::step_count(state.prompt_count()) <= usize::MAX
}

/// Whether the current step can be shown.
pub fn is_showable(state: &AppState) -> (r: bool)
    ensures
        r == showable(*state),
{
    let count = state.enrollment_script.prompts.len();
    let occurs = match state.training_step {
        TrainingStep::FixedPromptPreparation { index } => index < count,
        TrainingStep::FixedPrompt { index } => index < count,
        TrainingStep::ReviewRerecordPreparation { kind } => is_asked_for(kind, count),
        TrainingStep::ReviewRerecord { kind } => is_asked_for(kind, count),
        _ => true,
    };
    occurs && count <= (usize::MAX - 5) / 2
}

fn is_asked_for(kind: RecordingTakeKind, prompt_count: usize) -> (r: bool)
    ensures
        r == kind.is_expected(prompt_count as nat),
{
    match kind {
        RecordingTakeKind::FixedPrompt { index } => index < prompt_count,
        _ => true,
    }
}

proof fn lemma_position_fits(state: AppState)
    requires
        showable(state),
    ensures
        state.training_step.spec_position(state.prompt_count()) <= usize::MAX,
{
}

// ---------------------------------------------------------------------------
// The head of the page
// ---------------------------------------------------------------------------
/// The number of the step and of all steps.
pub open spec fn step_fraction(state: AppState) -> Seq<char> {
    lines::fraction(
        state.training_step.spec_position(state.prompt_count()),
        if state.training_step.spec_is_rerecord() {
            2
        } else {
            training::step_count(state.prompt_count())
        },
    )
}

pub open spec fn header(state: AppState) -> Seq<char> {
    let start = "当前步骤："@ + step_fraction(state) + " | "@
        + state.training_step.spec_title();
    if state.training_step.spec_is_rerecord() {
        start + " | Review 定向重录"@
    } else {
        start + " | "@ + state.enrollment_script.locale@ + " "@ + text::decimal(
            state.prompt_count(),
        ) + " 句固定短句 + "@ + text::decimal(FREE_SPEECH_SECONDS as nat) + " 秒自由发挥"@
    }
}

/// The number of the step and of all steps.
pub fn step_numbers(state: &AppState) -> (r: (usize, usize))
    requires
        showable(*state),
    ensures
        r.0 == state.training_step.spec_position(state.prompt_count()),
        r.1 == if state.training_step.spec_is_rerecord() {
            2
        } else {
            training::step_count(state.prompt_count())
        },
        1 <= r.0 <= r.1,
{
    proof {
        lemma_position_fits(*state);
    }
    let prompt_count = state.enrollment_script.prompts.len();
    (state.training_step.position(prompt_count), state.training_step.flow_total_steps(prompt_count))
}

/// The line that tells the current step.
pub fn header_text(state: &AppState) -> (r: String)
    requires
        showable(*state),
    ensures
        r@ == header(*state),
{
    let (position, total) = step_numbers(state);
    let numbers = fraction_text(position as u64, total as u64);
    let title = state.training_step.title();
    let mut words = text::joined3("当前步骤：", numbers.as_str(), " | ");
    words.append(title.as_str());
    if state.training_step.is_review_rerecord_flow() {
        words.append(" | Review 定向重录");
    } else {
        let prompts = text::decimal_text(state.enrollment_script.prompts.len() as u64);
        let seconds = text::decimal_text(FREE_SPEECH_SECONDS as u64);
        words.append(" | ");
        words.append(state.enrollment_script.locale);
        words.append(" ");
        words.append(prompts.as_str());
        words.append(" 句固定短句 + ");
        words.append(seconds.as_str());
        words.append(" 秒自由发挥");
    }
    words
}

/// The text on the progress bar.
pub fn progress_text(state: &AppState) -> (r: String)
    requires
        showable(*state),
    ensures
        r@ == "训练进度 "@ + step_fraction(*state),
{
    let (position, total) = step_numbers(state);
    let numbers = fraction_text(position as u64, total as u64);
    text::joined("训练进度 ", numbers.as_str())
}

// ---------------------------------------------------------------------------
// The input
// ---------------------------------------------------------------------------
pub open spec fn input_line(state: AppState) -> Seq<(Tone, Seq<char>)> {
    match state.settings.selected_input_device {
        Some(name) => lines::said(Tone::Plain, "当前输入设备："@ + name@),
        None => lines::said(
            Tone::Bad,
            "当前输入设备：未选择，请先到设备页选择真实麦克风。"@,
        ),
    }
}

/// Which input is used.
pub fn input_device_line(state: &AppState) -> (r: Line)
    ensures
        lines::said(r.tone, r.words@) == input_line(*state),
{
    match &state.settings.selected_input_device {
        Some(name) => Line {
            tone: Tone::Plain,
            words: text::joined("当前输入设备：", name.as_str()),
        },
        None => Line {
            tone: Tone::Bad,
            words: "当前输入设备：未选择，请先到设备页选择真实麦克风。".to_owned(),
        },
    }
}

/// Whether the microphone records.
pub fn recording_badge(state: &AppState) -> (r: Line)
    ensures
        r@ == if state.training_recording_active {
            (Tone::Good, "当前麦克风录制中"@)
        } else {
            (Tone::Bad, "当前麦克风未录制"@)
        },
{
    if state.is_training_recording_active() {
        Line { tone: Tone::Good, words: "当前麦克风录制中".to_owned() }
    } else {
        Line { tone: Tone::Bad, words: "当前麦克风未录制".to_owned() }
    }
}

pub open spec fn recording_notes_of(state: AppState) -> Seq<(Tone, Seq<char>)> {
    lines::said_error("训练录音错误："@, state.last_training_recording_error)
        + match state.previewing_recording_kind {
        Some(kind) => lines::said(Tone::Note, "当前正在预览："@ + kind.spec_label()),
        None => seq![],
    } + lines::said_error("录音预览错误："@, state.last_training_preview_error)
}

/// What is said of recording and playback.
pub fn recording_notes(state: &AppState) -> (r: Vec<Line>)
    requires
        state.previewing_recording_kind matches Some(kind) ==> kind.is_numbered(),
    ensures
        lines::line_views(r@) == recording_notes_of(*state),
{
    let mut notes: Vec<Line> = Vec::new();
    say_error(&mut notes, "训练录音错误：", &state.last_training_recording_error);
    if let Some(kind) = state.previewing_recording_kind {
        let label = kind.label();
        say(&mut notes, Tone::Note, text::joined("当前正在预览：", label.as_str()));
    }
    say_error(&mut notes, "录音预览错误：", &state.last_training_preview_error);
    assert(lines::line_views(notes@) =~= recording_notes_of(*state));
    notes
}

/// The level that the meter shows, between 0 and 1.
pub open spec fn shown_level(level: Float32) -> Float32 {
    level.spec_clamped(Float32 { bits: 0 }, Float32 { bits: 0x3F80_0000 })
}

/// The level that the meter shows and its tone: muted while nothing is recorded,
/// good where it is low, bad where it is too high.
pub fn level_meter(level: Float32, is_recording: bool) -> (r: (Float32, Tone))
    ensures
        r.0 == shown_level(level),
        r.1 == if !is_recording {
            Tone::Muted
        } else if shown_level(level).less(Float32 { bits: MIDDLE_LEVEL_BITS }) {
            Tone::Good
        } else if shown_level(level).less(Float32 { bits: HIGH_LEVEL_BITS }) {
            Tone::Caution
        } else {
            Tone::Bad
        },
{
    let shown = level.clamped(Float32 { bits: 0 }, Float32 { bits: 0x3F80_0000 });
    let tone = if !is_recording {
        Tone::Muted
    } else if shown.lt(Float32 { bits: MIDDLE_LEVEL_BITS }) {
        Tone::Good
    } else if shown.lt(Float32 { bits: HIGH_LEVEL_BITS }) {
        Tone::Caution
    } else {
        Tone::Bad
    };
    (shown, tone)
}

// ---------------------------------------------------------------------------
// The current step
// ---------------------------------------------------------------------------
/// The number of a prompt and of all prompts, with two digits.
pub open spec fn prompt_fraction(index: usize, prompt_count: nat) -> Seq<char> {
    text::decimal_two((index + 1) as nat) + "/"@ + text::decimal_two(prompt_count)
}

fn prompt_fraction_text(index: usize, prompt_count: usize) -> (r: String)
    requires
        index < prompt_count,
    ensures
        r@ == prompt_fraction(index, prompt_count as nat),
{
    let left = text::decimal_two_text(index as u64 + 1);
    let right = text::decimal_two_text(prompt_count as u64);
    text::joined3(left.as_str(), "/", right.as_str())
}

/// A heading with the number of the step.
pub open spec fn numbered(state: AppState, words: Seq<char>) -> Seq<char> {
    "第 "@ + text::decimal(state.training_step.spec_position(state.prompt_count())) + " 步："@
        + words
}

fn numbered_text(state: &AppState, words: &str) -> (r: String)
    requires
        showable(*state),
    ensures
        r@ == numbered(*state, words@),
{
    let (position, total) = step_numbers(state);
    let number = text::decimal_text(position as u64);
    let mut heading = text::joined3("第 ", number.as_str(), " 步：");
    heading.append(words);
    heading
}

pub open spec fn step_heading(state: AppState) -> Seq<char> {
    let count = state.prompt_count();
    match state.training_step {
        TrainingStep::Preparation => numbered(state, "训练准备"@),
        TrainingStep::AmbientSilence => numbered(state, "环境静音"@),
        TrainingStep::FixedPromptPreparation { index } => numbered(
            state,
            "固定短句准备 "@ + prompt_fraction(index, count),
        ),
        TrainingStep::FixedPrompt { index } => numbered(
            state,
            "固定短句 "@ + prompt_fraction(index, count),
        ),
        TrainingStep::FreeSpeechPreparation => numbered(state, "自由发挥准备"@),
        TrainingStep::FreeSpeech => numbered(state, "自由发挥"@),
        TrainingStep::ReviewRerecordPreparation { kind } => match kind {
            RecordingTakeKind::AmbientSilence => numbered(state, "重录 环境静音准备"@),
            RecordingTakeKind::FixedPrompt { index } => numbered(
                state,
                "重录 固定短句准备 "@ + prompt_fraction(index, count),
            ),
            RecordingTakeKind::FreeSpeech => numbered(state, "重录 自由发挥准备"@),
        },
        TrainingStep::ReviewRerecord { kind } => match kind {
            RecordingTakeKind::AmbientSilence => numbered(state, "重录 环境静音"@),
            RecordingTakeKind::FixedPrompt { index } => numbered(
                state,
                "重录 固定短句 "@ + prompt_fraction(index, count),
            ),
            RecordingTakeKind::FreeSpeech => numbered(state, "重录 自由发挥"@),
        },
        TrainingStep::Review => numbered(state, "完成确认"@),
    }
}

/// The heading of the current step.
pub fn step_heading_text(state: &AppState) -> (r: String)
    requires
        showable(*state),
    ensures
        r@ == step_heading(*state),
{
    let count = state.enrollment_script.prompts.len();
    match state.training_step {
        TrainingStep::Preparation => numbered_text(state, "训练准备"),
        TrainingStep::AmbientSilence => numbered_text(state, "环境静音"),
        TrainingStep::FixedPromptPreparation { index } => {
            let numbers = prompt_fraction_text(index, count);
            let words = text::joined("固定短句准备 ", numbers.as_str());
            numbered_text(state, words.as_str())
        },
        TrainingStep::FixedPrompt { index } => {
            let numbers = prompt_fraction_text(index, count);
            let words = text::joined("固定短句 ", numbers.as_str());
            numbered_text(state, words.as_str())
        },
        TrainingStep::FreeSpeechPreparation => numbered_text(state, "自由发挥准备"),
        TrainingStep::FreeSpeech => numbered_text(state, "自由发挥"),
        TrainingStep::ReviewRerecordPreparation { kind } => match kind {
            RecordingTakeKind::AmbientSilence => numbered_text(state, "重录 环境静音准备"),
            RecordingTakeKind::FixedPrompt { index } => {
                let numbers = prompt_fraction_text(index, count);
                let words = text::joined("重录 固定短句准备 ", numbers.as_str());
                numbered_text(state, words.as_str())
            },
            RecordingTakeKind::FreeSpeech => numbered_text(state, "重录 自由发挥准备"),
        },
        TrainingStep::ReviewRerecord { kind } => match kind {
            RecordingTakeKind::AmbientSilence => numbered_text(state, "重录 环境静音"),
            RecordingTakeKind::FixedPrompt { index } => {
                let numbers = prompt_fraction_text(index, count);
                let words = text::joined("重录 固定短句 ", numbers.as_str());
                numbered_text(state, words.as_str())
            },
            RecordingTakeKind::FreeSpeech => numbered_text(state, "重录 自由发挥"),
        },
        TrainingStep::Review => numbered_text(state, "完成确认"),
    }
}

/// What the judgement of the recordings means at the review.
pub open spec fn verdict(state: AppState) -> Seq<(Tone, Seq<char>)> {
    match state.training_quality_report {
        Some(report) => match report.spec_severity() {
            QualitySeverity::Passed => lines::said(
                Tone::Good,
                "基础质量检查通过，可以继续推进 profile 构建。"@,
            ),
            QualitySeverity::Warning => lines::said(
                Tone::Caution,
                "基础质量检查存在提醒，但不会阻止你继续下一步。"@,
            ),
            QualitySeverity::Error => lines::said(
                Tone::Bad,
                "基础质量检查发现错误，但仍然允许继续下一步；如效果不理想再回头重录即可。"@,
            ),
        },
        None => lines::said_error("基础质量检查执行失败："@, state.last_training_quality_error),
    }
}

/// What is said before the text to read or the countdown.
pub open spec fn step_intro(state: AppState) -> Seq<(Tone, Seq<char>)> {
    match state.training_step {
        TrainingStep::Preparation => lines::said(
            Tone::Plain,
            "请先确认输入设备已经选中正确的真实麦克风，再开始这轮注册。"@,
        ) + lines::said(
            Tone::Plain,
            "本轮流程固定为：5 秒环境静音 -> 10 句固定短句 -> 30 秒自由发挥。"@,
        ) + lines::said(Tone::Plain, "确认无误后再开始训练。"@) + lines::said_if(
            state.runtime_stage != RuntimeStage::Stopped,
            Tone::Caution,
            "开始训练前请先停止设备页中的 Passthrough，避免麦克风被实时链路占用。"@,
        ),
        TrainingStep::AmbientSilence => lines::said(
            Tone::Plain,
            "请保持环境安静，用于后续噪声基线和质量检查。"@,
        ),
        TrainingStep::FixedPromptPreparation { .. } => lines::said(
            Tone::Plain,
            "请先看清这句文本，准备好后再开始录制本句。"@,
        ),
        TrainingStep::FixedPrompt { .. } => lines::said(
            Tone::Plain,
            "请按平时直播的自然状态朗读下面这句，读完后再点确认。"@,
        ),
        TrainingStep::FreeSpeechPreparation => lines::said(Tone::Plain, "固定短句已经结束。"@)
            + lines::said(
            Tone::Plain,
            "接下来会进入 30 秒自由发挥，请先想好要说的内容，再开始。"@,
        ) + lines::said(
            Tone::Plain,
            "建议直接模拟平时直播中的自然表达，不需要刻意放慢或夸张发音。"@,
        ),
        TrainingStep::FreeSpeech => lines::said(
            Tone::Plain,
            "请连续自然说话 "@ + text::decimal(FREE_SPEECH_SECONDS as nat)
                + " 秒，可以做自我介绍，或者模拟平时直播时的自然口播。"@,
        ) + lines::said(Tone::Plain, "这一段重点覆盖连读、停顿、语速变化和自然语气。"@),
        TrainingStep::ReviewRerecordPreparation { kind } => match kind {
            RecordingTakeKind::AmbientSilence => lines::said(
                Tone::Plain,
                "即将重新录制环境静音。"@,
            ) + lines::said(Tone::Plain, "请保持环境安静，准备好后再开始重录。"@),
            RecordingTakeKind::FixedPrompt { .. } => lines::said(
                Tone::Plain,
                "即将重新录制这句固定短句。"@,
            ),
            RecordingTakeKind::FreeSpeech => lines::said(Tone::Plain, "即将重新录制自由发挥。"@)
                + lines::said(Tone::Plain, "请先想好要说的内容，准备好后再开始重录。"@),
        },
        TrainingStep::ReviewRerecord { kind } => match kind {
            RecordingTakeKind::AmbientSilence => lines::said(
                Tone::Plain,
                "请保持环境安静，用于重新采集环境噪声基线。"@,
            ),
            RecordingTakeKind::FixedPrompt { .. } => lines::said(
                Tone::Plain,
                "请重新朗读下面这句，完成后点击确认，页面会返回完成确认阶段。"@,
            ),
            RecordingTakeKind::FreeSpeech => lines::said(
                Tone::Plain,
                "请重新完成这段自由发挥，完成后点击确认，页面会返回完成确认阶段。"@,
            ),
        },
        TrainingStep::Review => lines::said(Tone::Plain, "这轮强引导训练步骤已经全部走完。"@)
            + lines::said(
            Tone::Plain,
            "当前录音文件已经落地，并已执行一轮基础质量检查。"@,
        ) + lines::said(
            Tone::Plain,
            "当前质量检查结果会自动刷新默认 profile，包括 speaker embedding 聚合与建议阈值。"@,
        ) + verdict(state) + lines::said(
            Tone::Plain,
            "如需丢弃本轮训练信息并重新开始，需要连续点击 "@ + text::decimal(
                RESTART_TRAINING_CONFIRMATION_CLICKS as nat,
            ) + " 次。"@,
        ),
    }
}

fn say_verdict(list: &mut Vec<Line>, state: &AppState)
    ensures
        lines::line_views(final(list)@) == lines::line_views(old(list)@) + verdict(*state),
{
    match &state.training_quality_report {
        Some(report) => match report.severity() {
            QualitySeverity::Passed => {
                say_str(list, Tone::Good, "基础质量检查通过，可以继续推进 profile 构建。");
            },
            QualitySeverity::Warning => {
                say_str(list, Tone::Caution, "基础质量检查存在提醒，但不会阻止你继续下一步。");
            },
            QualitySeverity::Error => {
                say_str(
                    list,
                    Tone::Bad,
                    "基础质量检查发现错误，但仍然允许继续下一步；如效果不理想再回头重录即可。",
                );
            },
        },
        None => {
            say_error(list, "基础质量检查执行失败：", &state.last_training_quality_error);
        },
    }
}

/// What is said before the text to read or the countdown.
pub fn step_intro_lines(state: &AppState) -> (r: Vec<Line>)
    ensures
        lines::line_views(r@) == step_intro(*state),
{
    let mut list: Vec<Line> = Vec::new();
    match state.training_step {
        TrainingStep::Preparation => {
            say_str(
                &mut list,
                Tone::Plain,
                "请先确认输入设备已经选中正确的真实麦克风，再开始这轮注册。",
            );
            say_str(
                &mut list,
                Tone::Plain,
                "本轮流程固定为：5 秒环境静音 -> 10 句固定短句 -> 30 秒自由发挥。",
            );
            say_str(&mut list, Tone::Plain, "确认无误后再开始训练。");
            if state.runtime_stage != RuntimeStage::Stopped {
                say_str(
                    &mut list,
                    Tone::Caution,
                    "开始训练前请先停止设备页中的 Passthrough，避免麦克风被实时链路占用。",
                );
            }
        },
        TrainingStep::AmbientSilence => {
            say_str(&mut list, Tone::Plain, "请保持环境安静，用于后续噪声基线和质量检查。");
        },
        TrainingStep::FixedPromptPreparation { .. } => {
            say_str(&mut list, Tone::Plain, "请先看清这句文本，准备好后再开始录制本句。");
        },
        TrainingStep::FixedPrompt { .. } => {
            say_str(
                &mut list,
                Tone::Plain,
                "请按平时直播的自然状态朗读下面这句，读完后再点确认。",
            );
        },
        TrainingStep::FreeSpeechPreparation => {
            say_str(&mut list, Tone::Plain, "固定短句已经结束。");
            say_str(
                &mut list,
                Tone::Plain,
                "接下来会进入 30 秒自由发挥，请先想好要说的内容，再开始。",
            );
            say_str(
                &mut list,
                Tone::Plain,
                "建议直接模拟平时直播中的自然表达，不需要刻意放慢或夸张发音。",
            );
        },
        TrainingStep::FreeSpeech => {
            let seconds = text::decimal_text(FREE_SPEECH_SECONDS as u64);
            say(
                &mut list,
                Tone::Plain,
                text::joined3(
                    "请连续自然说话 ",
                    seconds.as_str(),
                    " 秒，可以做自我介绍，或者模拟平时直播时的自然口播。",
                ),
            );
            say_str(
                &mut list,
                Tone::Plain,
                "这一段重点覆盖连读、停顿、语速变化和自然语气。",
            );
        },
        TrainingStep::ReviewRerecordPreparation { kind } => match kind {
            RecordingTakeKind::AmbientSilence => {
                say_str(&mut list, Tone::Plain, "即将重新录制环境静音。");
                say_str(&mut list, Tone::Plain, "请保持环境安静，准备好后再开始重录。");
            },
            RecordingTakeKind::FixedPrompt { .. } => {
                say_str(&mut list, Tone::Plain, "即将重新录制这句固定短句。");
            },
            RecordingTakeKind::FreeSpeech => {
                say_str(&mut list, Tone::Plain, "即将重新录制自由发挥。");
                say_str(&mut list, Tone::Plain, "请先想好要说的内容，准备好后再开始重录。");
            },
        },
        TrainingStep::ReviewRerecord { kind } => match kind {
            RecordingTakeKind::AmbientSilence => {
                say_str(&mut list, Tone::Plain, "请保持环境安静，用于重新采集环境噪声基线。");
            },
            RecordingTakeKind::FixedPrompt { .. } => {
                say_str(
                    &mut list,
                    Tone::Plain,
                    "请重新朗读下面这句，完成后点击确认，页面会返回完成确认阶段。",
                );
            },
            RecordingTakeKind::FreeSpeech => {
                say_str(
                    &mut list,
                    Tone::Plain,
                    "请重新完成这段自由发挥，完成后点击确认，页面会返回完成确认阶段。",
                );
            },
        },
        TrainingStep::Review => {
            say_str(&mut list, Tone::Plain, "这轮强引导训练步骤已经全部走完。");
            say_str(
                &mut list,
                Tone::Plain,
                "当前录音文件已经落地，并已执行一轮基础质量检查。",
            );
            say_str(
                &mut list,
                Tone::Plain,
                "当前质量检查结果会自动刷新默认 profile，包括 speaker embedding 聚合与建议阈值。",
            );
            say_verdict(&mut list, state);
            let clicks = text::decimal_text(RESTART_TRAINING_CONFIRMATION_CLICKS as u64);
            say(
                &mut list,
                Tone::Plain,
                text::joined3(
                    "如需丢弃本轮训练信息并重新开始，需要连续点击 ",
                    clicks.as_str(),
                    " 次。",
                ),
            );
        },
    }
    assert(lines::line_views(list@) =~= step_intro(*state));
    list
}

/// Whether the step is an ambient take, which ends by itself.
pub open spec fn counts_down(step: TrainingStep) -> bool {
    step.spec_take() == Some(RecordingTakeKind::AmbientSilence)
}

/// The prompt to read in the step, if any.
pub open spec fn step_prompt(state: AppState) -> Option<int> {
    match state.training_step {
        TrainingStep::FixedPromptPreparation { index } => Some(index as int),
        TrainingStep::FixedPrompt { index } => Some(index as int),
        TrainingStep::ReviewRerecordPreparation { kind } => match kind {
            RecordingTakeKind::FixedPrompt { index } => Some(index as int),
            _ => None,
        },
        TrainingStep::ReviewRerecord { kind } => match kind {
            RecordingTakeKind::FixedPrompt { index } => Some(index as int),
            _ => None,
        },
        _ => None,
    }
}

/// What is shown large: the prompt to read, or the seconds that are left of an
/// ambient take.
pub fn step_focus(state: &AppState, remaining_seconds: u32) -> (r: Option<String>)
    requires
        showable(*state),
    ensures
        match step_prompt(*state) {
            Some(index) => r matches Some(words) && words@
                == state.enrollment_script.prompts@[index]@,
            None => if counts_down(state.training_step) {
                r matches Some(words) && words@ == text::decimal(remaining_seconds as nat)
            } else {
                r is None
            },
        },
{
    let index = match state.training_step {
        TrainingStep::FixedPromptPreparation { index } => index,
        TrainingStep::FixedPrompt { index } => index,
        TrainingStep::ReviewRerecordPreparation { kind } => match kind {
            RecordingTakeKind::FixedPrompt { index } => index,
            _ => {
                return None;
            },
        },
        TrainingStep::ReviewRerecord { kind } => match kind {
            RecordingTakeKind::FixedPrompt { index } => index,
            RecordingTakeKind::AmbientSilence => {
                return Some(text::decimal_text(remaining_seconds as u64));
            },
            RecordingTakeKind::FreeSpeech => {
                return None;
            },
        },
        TrainingStep::AmbientSilence => {
            return Some(text::decimal_text(remaining_seconds as u64));
        },
        _ => {
            return None;
        },
    };
    Some(state.enrollment_script.prompts[index].clone())
}

/// What is said after the text to read or the countdown.
pub open spec fn step_outro(state: AppState) -> Seq<(Tone, Seq<char>)> {
    match state.training_step {
        TrainingStep::AmbientSilence => lines::said(
            Tone::Plain,
            "倒计时结束后，会自动进入固定短句准备。"@,
        ) + lines::said(Tone::Plain, "准备录制时不要说话，也尽量不要移动麦克风。"@),
        TrainingStep::FixedPromptPreparation { .. } => lines::said(
            Tone::Plain,
            "确认准备好后，程序才会进入本句录制阶段。"@,
        ),
        TrainingStep::FixedPrompt { index } => lines::said(
            Tone::Plain,
            "还剩 "@ + text::decimal((state.prompt_count() - (index + 1)) as nat)
                + " 句固定短句。"@,
        ),
        TrainingStep::ReviewRerecordPreparation { kind } => if kind is FixedPrompt {
            lines::said(
                Tone::Plain,
                "确认准备好后，程序会进入这句固定短句的重录阶段。"@,
            )
        } else {
            seq![]
        },
        TrainingStep::ReviewRerecord { kind } => if kind is AmbientSilence {
            lines::said(Tone::Plain, "倒计时结束后，会自动返回完成确认阶段。"@) + lines::said(
                Tone::Plain,
                "重录时不要说话，也尽量不要移动麦克风。"@,
            )
        } else {
            seq![]
        },
        _ => seq![],
    }
}

/// What is said after the text to read or the countdown.
pub fn step_outro_lines(state: &AppState) -> (r: Vec<Line>)
    requires
        showable(*state),
    ensures
        lines::line_views(r@) == step_outro(*state),
{
    let mut list: Vec<Line> = Vec::new();
    match state.training_step {
        TrainingStep::AmbientSilence => {
            say_str(&mut list, Tone::Plain, "倒计时结束后，会自动进入固定短句准备。");
            say_str(&mut list, Tone::Plain, "准备录制时不要说话，也尽量不要移动麦克风。");
        },
        TrainingStep::FixedPromptPreparation { .. } => {
            say_str(&mut list, Tone::Plain, "确认准备好后，程序才会进入本句录制阶段。");
        },
        TrainingStep::FixedPrompt { index } => {
            let left = text::decimal_text(
                state.enrollment_script.prompts.len() as u64 - (index as u64 + 1),
            );
            say(
                &mut list,
                Tone::Plain,
                text::joined3("还剩 ", left.as_str(), " 句固定短句。"),
            );
        },
        TrainingStep::ReviewRerecordPreparation { kind } => match kind {
            RecordingTakeKind::FixedPrompt { .. } => {
                say_str(
                    &mut list,
                    Tone::Plain,
                    "确认准备好后，程序会进入这句固定短句的重录阶段。",
                );
            },
            _ => {},
        },
        TrainingStep::ReviewRerecord { kind } => match kind {
            RecordingTakeKind::AmbientSilence => {
                say_str(&mut list, Tone::Plain, "倒计时结束后，会自动返回完成确认阶段。");
                say_str(&mut list, Tone::Plain, "重录时不要说话，也尽量不要移动麦克风。");
            },
            _ => {},
        },
        _ => {},
    }
    assert(lines::line_views(list@) =~= step_outro(*state));
    list
}

/// The words on the button of the step; an ambient take has none.
pub open spec fn step_button(state: AppState) -> Option<Seq<char>> {
    match state.training_step {
        TrainingStep::Preparation => Some("确定准备好，开始训练"@),
        TrainingStep::AmbientSilence => None,
        TrainingStep::FixedPromptPreparation { .. } => Some("确定准备好，开始录制本句"@),
        TrainingStep::FixedPrompt { index } => if index + 1 == state.prompt_count() {
            Some("确认本句已完成，进入自由发挥准备"@)
        } else {
            Some("确认本句已完成，进入下一个准备阶段"@)
        },
        TrainingStep::FreeSpeechPreparation => Some("确定准备好，开始 30 秒自由发挥"@),
        TrainingStep::FreeSpeech => Some("确定已完成 30 秒自由发挥"@),
        TrainingStep::ReviewRerecordPreparation { kind } => match kind {
            RecordingTakeKind::AmbientSilence => Some("确定准备好，开始重录环境静音"@),
            RecordingTakeKind::FixedPrompt { .. } => Some("确定准备好，开始重录本句"@),
            RecordingTakeKind::FreeSpeech => Some("确定准备好，开始重录自由发挥"@),
        },
        TrainingStep::ReviewRerecord { kind } => match kind {
            RecordingTakeKind::AmbientSilence => None,
            RecordingTakeKind::FixedPrompt { .. } => Some(
                "确认本句重录已完成，返回完成确认"@,
            ),
            RecordingTakeKind::FreeSpeech => Some("确认自由发挥重录已完成，返回完成确认"@),
        },
        TrainingStep::Review => Some("重新开始本轮训练"@),
    }
}

/// The words on the button of the step, and whether it can be pressed: training
/// begins only with an input chosen and no link running.
pub fn step_button_text(state: &AppState) -> (r: Option<(&'static str, bool)>)
    requires
        showable(*state),
    ensures
        match step_button(*state) {
            Some(words) => {
                &&& r matches Some(button)
                &&& button.0@ == words
                &&& button.1 == (state.training_step == TrainingStep::Preparation ==> (
                state.settings.selected_input_device is Some && state.runtime_stage
                    == RuntimeStage::Stopped))
            },
            None => r is None,
        },
{
    match state.training_step {
        TrainingStep::Preparation => {
            let ready = state.settings.selected_input_device.is_some() && state.runtime_stage
                == RuntimeStage::Stopped;
            Some(("确定准备好，开始训练", ready))
        },
        TrainingStep::AmbientSilence => None,
        TrainingStep::FixedPromptPreparation { .. } => Some(("确定准备好，开始录制本句", true)),
        TrainingStep::FixedPrompt { index } => {
            if index == state.enrollment_script.prompts.len() - 1 {
                Some(("确认本句已完成，进入自由发挥准备", true))
            } else {
                Some(("确认本句已完成，进入下一个准备阶段", true))
            }
        },
        TrainingStep::FreeSpeechPreparation => Some(("确定准备好，开始 30 秒自由发挥", true)),
        TrainingStep::FreeSpeech => Some(("确定已完成 30 秒自由发挥", true)),
        TrainingStep::ReviewRerecordPreparation { kind } => match kind {
            RecordingTakeKind::AmbientSilence => Some(("确定准备好，开始重录环境静音", true)),
            RecordingTakeKind::FixedPrompt { .. } => Some(("确定准备好，开始重录本句", true)),
            RecordingTakeKind::FreeSpeech => Some(("确定准备好，开始重录自由发挥", true)),
        },
        TrainingStep::ReviewRerecord { kind } => match kind {
            RecordingTakeKind::AmbientSilence => None,
            RecordingTakeKind::FixedPrompt { .. } => Some(
                ("确认本句重录已完成，返回完成确认", true),
            ),
            RecordingTakeKind::FreeSpeech => Some(
                ("确认自由发挥重录已完成，返回完成确认", true),
            ),
        },
        TrainingStep::Review => Some(("重新开始本轮训练", true)),
    }
}

/// The button of the step was pressed: on to the next step, or, at the review and
/// after enough clicks, back to the start.
pub fn step_button_pressed(state: &mut AppState)
    ensures
        ({
            let (clicks, confirmed) = state::next_clicks(
                old(state).restart_training_confirmation_clicks,
                RESTART_TRAINING_CONFIRMATION_CLICKS,
            );
            *final(state) == if old(state).training_step != TrainingStep::Review {
                AppState {
                    pending_command: Some(AppCommand::AdvanceTrainingStep),
                    ..*old(state)
                }
            } else {
                AppState {
                    restart_training_confirmation_clicks: clicks,
                    pending_command: if confirmed {
                        Some(AppCommand::RestartTrainingFlow)
                    } else {
                        old(state).pending_command
                    },
                    ..*old(state)
                }
            }
        }),
{
    if state.is_review_step() {
        if state.confirm_restart_training() {
            state.queue_command(AppCommand::RestartTrainingFlow);
        }
    } else {
        state.queue_command(AppCommand::AdvanceTrainingStep);
    }
}

/// An ambient take goes on by itself once no second is left. Tells whether it did.
pub fn step_ticked(state: &mut AppState, remaining_seconds: u32) -> (r: bool)
    ensures
        r == (counts_down(old(state).training_step) && remaining_seconds == 0),
        *final(state) == if r {
            AppState { pending_command: Some(AppCommand::AdvanceTrainingStep), ..*old(state) }
        } else {
            *old(state)
        },
{
    let ambient = match state.training_step.recording_take_kind() {
        Some(RecordingTakeKind::AmbientSilence) => true,
        _ => false,
    };
    if ambient && remaining_seconds == 0 {
        state.queue_command(AppCommand::AdvanceTrainingStep);
        true
    } else {
        false
    }
}

/// How far restarting is confirmed; shown at the review.
pub fn restart_progress_text(state: &AppState) -> (r: Option<String>)
    ensures
        if state.training_step == TrainingStep::Review {
            r matches Some(words) && words@ == "当前确认次数："@ + lines::fraction(
                state.restart_training_confirmation_clicks as nat,
                RESTART_TRAINING_CONFIRMATION_CLICKS as nat,
            )
        } else {
            r is None
        },
{
    if state.is_review_step() {
        let numbers = fraction_text(
            state.restart_training_confirmation_clicks as u64,
            RESTART_TRAINING_CONFIRMATION_CLICKS as u64,
        );
        Some(text::joined("当前确认次数：", numbers.as_str()))
    } else {
        None
    }
}

// ---------------------------------------------------------------------------
// Retrying
// ---------------------------------------------------------------------------
/// Whether retrying the previous prompt is offered in the step.
pub fn retry_offered(state: &AppState) -> (r: bool)
    ensures
        r == (!state.training_step.spec_is_rerecord() && state.training_step
            != TrainingStep::Review),
{
    !state.training_step.is_review_rerecord_flow() && !state.is_review_step()
}

pub open spec fn retry_hints(state: AppState) -> Seq<(Tone, Seq<char>)> {
    if state.training_step.spec_retry(state.prompt_count()) is Some {
        lines::said(
            Tone::Small,
            "需要连续点击 "@ + text::decimal(RETRY_PREVIOUS_PROMPT_CONFIRMATION_CLICKS as nat)
                + " 次才会回退并重新录制上一句话。"@,
        ) + lines::said(
            Tone::Small,
            "当前确认次数："@ + lines::fraction(
                state.retry_previous_prompt_confirmation_clicks as nat,
                RETRY_PREVIOUS_PROMPT_CONFIRMATION_CLICKS as nat,
            ),
        )
    } else {
        lines::said(Tone::Small, "当前还没有上一句话可重录。"@)
    }
}

/// What is said below the button for retrying.
pub fn retry_hint_lines(state: &AppState) -> (r: Vec<Line>)
    ensures
        lines::line_views(r@) == retry_hints(*state),
{
    let mut list: Vec<Line> = Vec::new();
    if state.can_retry_previous_prompt() {
        let needed = text::decimal_text(RETRY_PREVIOUS_PROMPT_CONFIRMATION_CLICKS as u64);
        say(
            &mut list,
            Tone::Small,
            text::joined3("需要连续点击 ", needed.as_str(), " 次才会回退并重新录制上一句话。"),
        );
        let numbers = fraction_text(
            state.retry_previous_prompt_confirmation_clicks as u64,
            RETRY_PREVIOUS_PROMPT_CONFIRMATION_CLICKS as u64,
        );
        say(&mut list, Tone::Small, text::joined("当前确认次数：", numbers.as_str()));
    } else {
        say_str(&mut list, Tone::Small, "当前还没有上一句话可重录。");
    }
    assert(lines::line_views(list@) =~= retry_hints(*state));
    list
}

/// Retrying was clicked; it is asked for after enough clicks.
pub fn retry_pressed(state: &mut AppState)
    ensures
        ({
            let (clicks, confirmed) = state::next_clicks(
                old(state).retry_previous_prompt_confirmation_clicks,
                RETRY_PREVIOUS_PROMPT_CONFIRMATION_CLICKS,
            );
            let possible = old(state).training_step.spec_retry(old(state).prompt_count()) is Some;
            *final(state) == (AppState {
                retry_previous_prompt_confirmation_clicks: if possible {
                    clicks
                } else {
                    0
                },
                pending_command: if possible && confirmed {
                    Some(AppCommand::RetryPreviousPrompt)
                } else {
                    old(state).pending_command
                },
                ..*old(state)
            })
        }),
{
    if state.confirm_retry_previous_prompt() {
        state.queue_command(AppCommand::RetryPreviousPrompt);
    }
}

// ---------------------------------------------------------------------------
// The recordings
// ---------------------------------------------------------------------------
/// The heading over the prompts.
pub fn prompts_heading(state: &AppState) -> (r: String)
    ensures
        r@ == "固定短句：已录制 "@ + lines::fraction(
            record::present(state.training_recordings.fixed_prompts@).len(),
            state.training_recordings.fixed_prompts@.len(),
        ) + " 句"@,
{
    let numbers = fraction_text(
        state.training_recordings.recorded_prompt_count() as u64,
        state.training_recordings.fixed_prompts.len() as u64,
    );
    text::joined3("固定短句：已录制 ", numbers.as_str(), " 句")
}

/// The title of a prompt in the list.
pub fn prompt_title(index: usize, prompt: &str) -> (r: String)
    requires
        index < usize::MAX,
    ensures
        r@ == text::decimal_two((index + 1) as nat) + ". "@ + prompt@,
{
    let number = text::decimal_two_text(index as u64 + 1);
    text::joined3(number.as_str(), ". ", prompt)
}

/// What is shown of one take in the list.
#[derive(Debug)]
pub struct RecordingItem {
    /// Whether it can be played back and recorded again.
    pub enabled: bool,
    pub status: Line,
    pub hint: Option<String>,
}

pub open spec fn item_hint(state: AppState, clip: Option<RecordedClip>) -> Option<Seq<char>> {
    match clip {
        Some(found) => match state.spec_rerecord_progress(found.kind) {
            Some((clicks, required)) => Some(
                "当前条目的“重录”需要连续点击 "@ + text::decimal(required as nat)
                    + " 次才会触发："@ + lines::fraction(clicks as nat, required as nat),
            ),
            None => if state.training_step == TrainingStep::Review {
                Some(
                    "这里的“重录”需要连续点击 "@ + text::decimal(
                        REVIEW_SUMMARY_RERECORD_CONFIRMATION_CLICKS as nat,
                    ) + " 次才会真正触发。"@,
                )
            } else {
                None
            },
        },
        None => None,
    }
}

/// What is shown of one take in the list. `duration_text` is its duration with one
/// decimal.
pub fn recording_item(state: &AppState, clip: Option<&RecordedClip>, duration_text: &str) -> (r:
    RecordingItem)
    ensures
        r.enabled == (state.training_step == TrainingStep::Review && clip is Some),
        r.status@ == match clip {
            Some(found) => (
                Tone::Good,
                "已录制 "@ + duration_text@ + " 秒 | "@ + found.relative_path@,
            ),
            None => (Tone::Muted, "未录制"@),
        },
        match item_hint(
            *state,
            match clip {
                Some(found) => Some(*found),
                None => None,
            },
        ) {
            Some(words) => r.hint matches Some(hint) && hint@ == words,
            None => r.hint is None,
        },
{
    match clip {
        Some(found) => {
            let mut status = text::joined3("已录制 ", duration_text, " 秒 | ");
            status.append(found.relative_path.as_str());
            let hint = match state.review_summary_rerecord_progress(found.kind) {
                Some((clicks, required)) => {
                    let needed = text::decimal_text(required as u64);
                    let numbers = fraction_text(clicks as u64, required as u64);
                    let mut words = text::joined3(
                        "当前条目的“重录”需要连续点击 ",
                        needed.as_str(),
                        " 次才会触发：",
                    );
                    words.append(numbers.as_str());
                    Some(words)
                },
                None => {
                    if state.is_review_step() {
                        let needed = text::decimal_text(
                            REVIEW_SUMMARY_RERECORD_CONFIRMATION_CLICKS as u64,
                        );
                        Some(
                            text::joined3(
                                "这里的“重录”需要连续点击 ",
                                needed.as_str(),
                                " 次才会真正触发。",
                            ),
                        )
                    } else {
                        None
                    }
                },
            };
            RecordingItem {
                enabled: state.is_review_step(),
                status: Line { tone: Tone::Good, words: status },
                hint,
            }
        },
        None => RecordingItem {
            enabled: false,
            status: Line { tone: Tone::Muted, words: "未录制".to_owned() },
            hint: None,
        },
    }
}

/// Recording a take again was clicked in the list; it is asked for after enough
/// clicks on the same take.
pub fn item_rerecord_pressed(state: &mut AppState, kind: RecordingTakeKind)
    ensures
        ({
            let (clicked, confirmed) = old(state).spec_rerecord_click(kind);
            *final(state) == (AppState {
                pending_command: if confirmed {
                    Some(AppCommand::StartReviewRerecord { kind })
                } else {
                    old(state).pending_command
                },
                ..clicked
            })
        }),
{
    if state.confirm_review_summary_rerecord(kind) {
        state.queue_command(AppCommand::StartReviewRerecord { kind });
    }
}

/// Playing a take back was clicked.
pub fn preview_pressed(state: &mut AppState, kind: RecordingTakeKind)
    ensures
        *final(state) == (AppState {
            review_summary_rerecord_confirmation_target: None,
            review_summary_rerecord_confirmation_clicks: 0,
            pending_command: Some(AppCommand::PreviewRecordedClip { kind }),
            ..*old(state)
        }),
{
    state.cancel_review_summary_rerecord_confirmation();
    state.queue_command(AppCommand::PreviewRecordedClip { kind });
}

/// Recording a take with a problem again was clicked; one click is enough here.
pub fn problem_rerecord_pressed(state: &mut AppState, kind: RecordingTakeKind)
    ensures
        *final(state) == (AppState {
            review_summary_rerecord_confirmation_target: None,
            review_summary_rerecord_confirmation_clicks: 0,
            pending_command: Some(AppCommand::StartReviewRerecord { kind }),
            ..*old(state)
        }),
{
    state.cancel_review_summary_rerecord_confirmation();
    state.queue_command(AppCommand::StartReviewRerecord { kind });
}

// ---------------------------------------------------------------------------
// Quality
// ---------------------------------------------------------------------------
/// The tone of a severity.
pub open spec fn tone_of(severity: QualitySeverity) -> Tone {
    match severity {
        QualitySeverity::Passed => Tone::Good,
        QualitySeverity::Warning => Tone::Caution,
        QualitySeverity::Error => Tone::Bad,
    }
}

/// The tone of a severity.
pub fn severity_tone(severity: QualitySeverity) -> (r: Tone)
    ensures
        r == tone_of(severity),
{
    match severity {
        QualitySeverity::Passed => Tone::Good,
        QualitySeverity::Warning => Tone::Caution,
        QualitySeverity::Error => Tone::Bad,
    }
}

/// What is said where there is no judgement: why it failed, or that it is still to
/// come.
pub fn quality_notice(state: &AppState) -> (r: Option<Line>)
    ensures
        match state.last_training_quality_error {
            Some(error) => r matches Some(line) && line@ == (
                Tone::Bad,
                "质量检查执行失败："@ + error@,
            ),
            None => if state.training_quality_report is None {
                r matches Some(line) && line@ == (
                    Tone::Plain,
                    "完成整轮训练后，会在这里显示环境静音、固定短句和自由发挥的基础质量检查结果。"@,
                )
            } else {
                r is None
            },
        },
{
    match &state.last_training_quality_error {
        Some(error) => Some(
            Line {
                tone: Tone::Bad,
                words: text::joined("质量检查执行失败：", error.as_str()),
            },
        ),
        None => if state.training_quality_report.is_none() {
            Some(
                Line {
                    tone: Tone::Plain,
                    words: "完成整轮训练后，会在这里显示环境静音、固定短句和自由发挥的基础质量检查结果。".to_owned(),
                },
            )
        } else {
            None
        },
    }
}

/// One issue in a line.
pub open spec fn issue_line(issue: QualityIssue) -> (Tone, Seq<char>) {
    (tone_of(issue.severity), issue.severity.spec_label() + ": "@ + issue.message@)
}

/// Issues, a line each.
pub open spec fn issue_lines(issues: Seq<QualityIssue>) -> Seq<(Tone, Seq<char>)> {
    issues.map_values(|issue: QualityIssue| issue_line(issue))
}

/// Adds a line for every issue.
pub fn say_issues(list: &mut Vec<Line>, issues: &Vec<QualityIssue>)
    ensures
        lines::line_views(final(list)@) == lines::line_views(old(list)@) + issue_lines(issues@),
{
    let ghost before = lines::line_views(list@);
    let ghost all = issue_lines(issues@);
    let mut i: usize = 0;
    assert(lines::line_views(list@) =~= before + all.take(0));
    while i < issues.len()
        invariant
            i <= issues.len(),
            all == issue_lines(issues@),
            lines::line_views(list@) == before + all.take(i as int),
        decreases issues.len() - i,
    {
        say(
            list,
            severity_tone(issues[i].severity),
            text::joined3(issues[i].severity.label(), ": ", issues[i].message.as_str()),
        );
        assert(all[i as int] == issue_line(issues@[i as int]));
        i = i + 1;
        assert(lines::line_views(list@) =~= before + all.take(i as int));
    }
    assert(all.take(i as int) =~= all);
}

/// The numbers of a report as they are shown, with one decimal each.
#[derive(Debug)]
pub struct ReportTexts {
    pub total_active: String,
    pub threshold: String,
    pub ambient: String,
}

pub open spec fn quality_overview(report: QualityReport, numbers: ReportTexts) -> Seq<
    (Tone, Seq<char>),
> {
    lines::said(
        tone_of(report.spec_severity()),
        match report.spec_severity() {
            QualitySeverity::Passed => "当前基础质量检查通过。"@,
            QualitySeverity::Warning => "当前基础质量检查存在提醒。"@,
            QualitySeverity::Error => "当前基础质量检查存在错误，但仍可继续下一步。"@,
        },
    ) + lines::said(
        Tone::Plain,
        "固定短句："@ + lines::fraction(
            report.recorded_prompt_count as nat,
            report.expected_prompt_count as nat,
        ) + " | 有效语音总时长："@ + numbers.total_active@ + " 秒 | 活动阈值："@
            + numbers.threshold@ + " dBFS"@,
    ) + lines::said_if(
        report.ambient_rms_dbfs is Some,
        Tone::Plain,
        "环境静音平均电平："@ + numbers.ambient@ + " dBFS"@,
    ) + lines::said(
        Tone::Plain,
        "警告 "@ + text::decimal(report.count(QualitySeverity::Warning)) + " 条 | 错误 "@
            + text::decimal(report.count(QualitySeverity::Error)) + " 条"@,
    ) + issue_lines(report.issues@)
}

/// What is said of the recordings as a whole.
pub fn quality_overview_lines(report: &QualityReport, numbers: &ReportTexts) -> (r: Vec<Line>)
    requires
        report.is_countable(),
    ensures
        lines::line_views(r@) == quality_overview(*report, *numbers),
{
    let mut list: Vec<Line> = Vec::new();
    let severity = report.severity();
    let words = match severity {
        QualitySeverity::Passed => "当前基础质量检查通过。",
        QualitySeverity::Warning => "当前基础质量检查存在提醒。",
        QualitySeverity::Error => "当前基础质量检查存在错误，但仍可继续下一步。",
    };
    say_str(&mut list, severity_tone(severity), words);
    let recorded = fraction_text(
        report.recorded_prompt_count as u64,
        report.expected_prompt_count as u64,
    );
    let mut totals = text::joined3("固定短句：", recorded.as_str(), " | 有效语音总时长：");
    totals.append(numbers.total_active.as_str());
    totals.append(" 秒 | 活动阈值：");
    totals.append(numbers.threshold.as_str());
    totals.append(" dBFS");
    say(&mut list, Tone::Plain, totals);
    if report.ambient_rms_dbfs.is_some() {
        say(
            &mut list,
            Tone::Plain,
            text::joined3("环境静音平均电平：", numbers.ambient.as_str(), " dBFS"),
        );
    }
    let warnings = text::decimal_text(report.warning_count() as u64);
    let errors = text::decimal_text(report.error_count() as u64);
    let mut counts = text::joined3("警告 ", warnings.as_str(), " 条 | 错误 ");
    counts.append(errors.as_str());
    counts.append(" 条");
    say(&mut list, Tone::Plain, counts);
    say_issues(&mut list, &report.issues);
    assert(lines::line_views(list@) =~= quality_overview(*report, *numbers));
    list
}

/// The places of the reports with an issue, in order.
pub open spec fn problematic(reports: Seq<ClipQualityReport>) -> Seq<usize>
    decreases reports.len(),
{
    if reports.len() == 0 {
        seq![]
    } else {
        let rest = problematic(reports.drop_last());
        if quality::highest(reports.last().issues@) != QualitySeverity::Passed {
            rest.push((reports.len() - 1) as usize)
        } else {
            rest
        }
    }
}

/// The places of the recordings that have a problem of their own. Where there is
/// none, that is said instead.
pub fn problematic_clips(report: &QualityReport) -> (r: Vec<usize>)
    ensures
        r@ == problematic(report.clip_reports@),
        forall|i: int| 0 <= i < r@.len() ==> (#[trigger] r@[i]) < report.clip_reports@.len(),
{
    let mut places: Vec<usize> = Vec::new();
    let mut i: usize = 0;
    assert(places@ =~= problematic(report.clip_reports@.take(0)));
    while i < report.clip_reports.len()
        invariant
            i <= report.clip_reports.len(),
            places@ == problematic(report.clip_reports@.take(i as int)),
            forall|k: int| 0 <= k < places@.len() ==> (#[trigger] places@[k]) < i,
        decreases report.clip_reports.len() - i,
    {
        assert(report.clip_reports@.take(i + 1).drop_last() =~= report.clip_reports@.take(
            i as int,
        ));
        if report.clip_reports[i].severity() != QualitySeverity::Passed {
            places.push(i);
        }
        i = i + 1;
    }
    assert(report.clip_reports@.take(i as int) =~= report.clip_reports@);
    places
}

/// The numbers of one recording as they are shown.
#[derive(Debug)]
pub struct ClipTexts {
    pub duration: String,
    pub active: String,
    pub active_percent: String,
}

pub open spec fn clip_lines(clip: ClipQualityReport, numbers: ClipTexts) -> Seq<
    (Tone, Seq<char>),
> {
    lines::said(
        tone_of(quality::highest(clip.issues@)),
        clip.label@ + " | "@ + quality::highest(clip.issues@).spec_label(),
    ) + lines::said(
        Tone::Small,
        numbers.duration@ + " 秒 | "@ + text::decimal(clip.sample_rate_hz as nat)
            + " Hz | 活动 "@ + numbers.active@ + " 秒 ("@ + numbers.active_percent@ + "%) | "@
            + text::decimal(clip.activity_segment_count as nat) + " 段"@,
    ) + lines::said(Tone::Small, "文件："@ + clip.relative_path@) + issue_lines(clip.issues@)
}

/// What is said of a recording with a problem; the first line is its title.
pub fn problematic_clip_lines(clip: &ClipQualityReport, numbers: &ClipTexts) -> (r: Vec<Line>)
    ensures
        lines::line_views(r@) == clip_lines(*clip, *numbers),
{
    let mut list: Vec<Line> = Vec::new();
    let severity = clip.severity();
    say(
        &mut list,
        severity_tone(severity),
        text::joined3(clip.label.as_str(), " | ", severity.label()),
    );
    let rate = text::decimal_text(clip.sample_rate_hz as u64);
    let segments = text::decimal_text(clip.activity_segment_count as u64);
    let mut facts = text::joined3(numbers.duration.as_str(), " 秒 | ", rate.as_str());
    facts.append(" Hz | 活动 ");
    facts.append(numbers.active.as_str());
    facts.append(" 秒 (");
    facts.append(numbers.active_percent.as_str());
    facts.append("%) | ");
    facts.append(segments.as_str());
    facts.append(" 段");
    say(&mut list, Tone::Small, facts);
    say(&mut list, Tone::Small, text::joined("文件：", clip.relative_path.as_str()));
    say_issues(&mut list, &clip.issues);
    assert(lines::line_views(list@) =~= clip_lines(*clip, *numbers));
    list
}

// ---------------------------------------------------------------------------
// The profile
// ---------------------------------------------------------------------------
pub open spec fn profile_lines_of(state: AppState, threshold: Seq<char>) -> Seq<
    (Tone, Seq<char>),
> {
    lines::said(
        Tone::Plain,
        "默认 profile 模式：单人单机固定使用，不提供 profile 切换。"@,
    ) + lines::said(
        Tone::Plain,
        "默认保存路径：profiles/"@ + DEFAULT_PROFILE_ID@ + "/speaker_profile.json"@,
    ) + lines::said_error("默认 profile 状态读取失败: "@, state.last_profile_error)
        + match state.default_profile_summary {
        Some(summary) => lines::said(Tone::Plain, "默认 profile 状态"@) + lines::said(
            Tone::Plain,
            summary.spec_label(),
        ) + lines::said(
            Tone::Plain,
            "模型版本: "@ + summary.model_version@ + " | 质量: "@ + summary.quality_severity@
                + " | 警告 "@ + text::decimal(summary.quality_warning_count as nat)
                + " 条 | 错误 "@ + text::decimal(summary.quality_error_count as nat) + " 条"@,
        ) + if summary.embedding_count == 0 {
            lines::said(
                Tone::Small,
                "当前默认 profile 已自动写入训练元数据，embedding 与建议阈值会在下一步接入。"@,
            )
        } else {
            lines::said(
                Tone::Plain,
                "embedding 已就绪："@ + text::decimal(summary.embedding_count as nat)
                    + " 个 | 阈值建议: "@ + threshold,
            )
        },
        None => lines::said(
            Tone::Plain,
            "当前还没有已保存的默认 `speaker_profile.json`。"@,
        ),
    }
}

/// What is said of the profile. `threshold_text` is its suggested threshold with
/// three decimals.
pub fn profile_lines(state: &AppState, threshold_text: &str) -> (r: Vec<Line>)
    ensures
        lines::line_views(r@) == profile_lines_of(*state, threshold_text@),
{
    let mut list: Vec<Line> = Vec::new();
    say_str(
        &mut list,
        Tone::Plain,
        "默认 profile 模式：单人单机固定使用，不提供 profile 切换。",
    );
    say(
        &mut list,
        Tone::Plain,
        text::joined3("默认保存路径：profiles/", DEFAULT_PROFILE_ID, "/speaker_profile.json"),
    );
    say_error(&mut list, "默认 profile 状态读取失败: ", &state.last_profile_error);
    match &state.default_profile_summary {
        Some(summary) => {
            say_str(&mut list, Tone::Plain, "默认 profile 状态");
            say(&mut list, Tone::Plain, summary.label());
            let warnings = text::decimal_text(summary.quality_warning_count as u64);
            let errors = text::decimal_text(summary.quality_error_count as u64);
            let mut facts = text::joined3(
                "模型版本: ",
                summary.model_version.as_str(),
                " | 质量: ",
            );
            facts.append(summary.quality_severity.as_str());
            facts.append(" | 警告 ");
            facts.append(warnings.as_str());
            facts.append(" 条 | 错误 ");
            facts.append(errors.as_str());
            facts.append(" 条");
            say(&mut list, Tone::Plain, facts);
            if summary.is_metadata_only() {
                say_str(
                    &mut list,
                    Tone::Small,
                    "当前默认 profile 已自动写入训练元数据，embedding 与建议阈值会在下一步接入。",
                );
            } else {
                let count = text::decimal_text(summary.embedding_count as u64);
                let mut ready = text::joined3(
                    "embedding 已就绪：",
                    count.as_str(),
                    " 个 | 阈值建议: ",
                );
                ready.append(threshold_text);
                say(&mut list, Tone::Plain, ready);
            }
        },
        None => {
            say_str(
                &mut list,
                Tone::Plain,
                "当前还没有已保存的默认 `speaker_profile.json`。",
            );
        },
    }
    assert(lines::line_views(list@) =~= profile_lines_of(*state, threshold_text@));
    list
}

proof fn lemma_problematic(reports: Seq<ClipQualityReport>)
    requires
        reports.len() <= usize::MAX,
    ensures
        forall|k: int|
            0 <= k < problematic(reports).len() ==> (#[trigger] problematic(reports)[k])
                < reports.len() && quality::highest(
                reports[problematic(reports)[k] as int].issues@,
            ) != QualitySeverity::Passed,
        forall|i: int|
            0 <= i < reports.len() && quality::highest((#[trigger] reports[i]).issues@)
                != QualitySeverity::Passed ==> problematic(reports).contains(i as usize),
        forall|j: int, k: int|
            0 <= j < k < problematic(reports).len() ==> problematic(reports)[j]
                < problematic(reports)[k],
    decreases reports.len(),
{
    if reports.len() > 0 {
        let rest = reports.drop_last();
        let places = problematic(rest);
        lemma_problematic(rest);
        let n = reports.len() - 1;
        assert forall|k: int| 0 <= k < places.len() implies (#[trigger] places[k]) < n
            && quality::highest(reports[places[k] as int].issues@) != QualitySeverity::Passed by {
            assert(rest[places[k] as int] == reports[places[k] as int]);
        }
        assert forall|i: int|
            0 <= i < reports.len() && quality::highest((#[trigger] reports[i]).issues@)
                != QualitySeverity::Passed implies problematic(reports).contains(i as usize) by {
            if i < n {
                assert(rest[i] == reports[i]);
                let k = choose|k: int| 0 <= k < places.len() && places[k] == i as usize;
                assert(problematic(reports)[k] == i as usize);
            } else {
                assert(problematic(reports)[places.len() as int] == n as usize);
            }
        }
    }
}

/// Exactly the recordings with a warning or an error are listed as problematic, each once and in
/// order.
pub proof fn problematic_recordings_are_listed(reports: Seq<ClipQualityReport>, i: int)
    requires
        reports.len() <= usize::MAX,
        0 <= i < reports.len(),
    ensures
        problematic(reports).contains(i as usize) <==> exists|k: int|
            0 <= k < reports[i].issues@.len() && (#[trigger] reports[i].issues@[k]).severity
                != QualitySeverity::Passed,
        forall|j: int, k: int|
            0 <= j < k < problematic(reports).len() ==> problematic(reports)[j]
                < problematic(reports)[k],
{
    lemma_problematic(reports);
    let issues = reports[i].issues@;
    if exists|k: int| 0 <= k < issues.len() && (#[trigger] issues[k]).severity
        != QualitySeverity::Passed {
        let k = choose|k: int|
            0 <= k < issues.len() && (#[trigger] issues[k]).severity != QualitySeverity::Passed;
        quality::grade_is_the_worst_issue(issues, k);
    }
    if problematic(reports).contains(i as usize) {
        let p = choose|p: int|
            0 <= p < problematic(reports).len() && problematic(reports)[p] == i as usize;
        assert(quality::highest(reports[problematic(reports)[p] as int].issues@)
            != QualitySeverity::Passed);
        if issues.len() > 0 {
            quality::grade_is_the_worst_issue(issues, 0);
        }
    }
}

/// Only what passed is shown in a good tone, only an error in a bad one.
pub proof fn tones_tell_severities(severity: QualitySeverity)
    ensures
        tone_of(severity) == Tone::Good <==> severity == QualitySeverity::Passed,
        tone_of(severity) == Tone::Caution <==> severity == QualitySeverity::Warning,
        tone_of(severity) == Tone::Bad <==> severity == QualitySeverity::Error,
{
}

/// Every issue is shown by one line, in order, with its message.
pub proof fn issues_are_shown_in_order(a: Seq<QualityIssue>, b: Seq<QualityIssue>, i: int)
    requires
        0 <= i < a.len(),
    ensures
        issue_lines(a).len() == a.len(),
        issue_lines(a + b) == issue_lines(a) + issue_lines(b),
        issue_lines(a)[i].1 == a[i].severity.spec_label() + ": "@ + a[i].message@,
        a[i].severity == QualitySeverity::Error <==> issue_lines(a)[i].0 == Tone::Bad,
        a[i].severity == QualitySeverity::Warning <==> issue_lines(a)[i].0 == Tone::Caution,
{
    assert(issue_lines(a + b) =~= issue_lines(a) + issue_lines(b));
    assert(issue_lines(a)[i] == issue_line(a[i]));
}

/// Only ambient takes count down; they are the only steps without a button, and no step both
/// counts down and shows a text to read.
pub proof fn ambient_takes_end_by_themselves(state: AppState)
    ensures
        counts_down(state.training_step) <==> state.training_step == TrainingStep::AmbientSilence
            || state.training_step == (TrainingStep::ReviewRerecord {
            kind: RecordingTakeKind::AmbientSilence,
        }),
        counts_down(state.training_step) <==> step_button(state) is None,
        counts_down(state.training_step) ==> step_prompt(state) is None,
{
}

/// A prompt that is recorded is shown while it is.
pub proof fn recorded_prompts_are_shown(state: AppState, index: usize)
    ensures
        state.training_step.spec_take() == Some(RecordingTakeKind::FixedPrompt { index }) ==>
            step_prompt(state) == Some(index as int),
        step_prompt(state) is Some && state.training_step.spec_take() is Some ==>
            state.training_step.spec_take()->0 is FixedPrompt,
        state.training_step == (TrainingStep::FixedPromptPreparation { index }) ==> step_prompt(
            state,
        ) == Some(index as int),
        state.training_step == (TrainingStep::ReviewRerecordPreparation {
            kind: RecordingTakeKind::FixedPrompt { index },
        }) ==> step_prompt(state) == Some(index as int),
{
}

/// The meter shows a level between 0 and 1, and one that lies there as it is.
pub proof fn meter_stays_on_its_scale(level: Float32)
    requires
        !level.spec_is_nan(),
    ensures
        (Float32 { bits: 0 }).at_most(shown_level(level)),
        shown_level(level).at_most(Float32 { bits: 0x3F80_0000 }),
        (Float32 { bits: 0 }).at_most(level) && level.at_most(Float32 { bits: 0x3F80_0000 }) ==>
            shown_level(level) == level,
{
    crate::util::float32::encodings_are_ordered(
        Float32 { bits: 0 },
        Float32 { bits: 0x3F80_0000 },
    );
}

/// A judgement is told by one line in the tone of its severity; a failed one by its error.
pub proof fn verdicts_follow_judgements(state: AppState)
    ensures
        state.training_quality_report matches Some(report) ==> verdict(state).len() == 1 && verdict(
            state,
        )[0].0 == tone_of(report.spec_severity()),
        state.training_quality_report is None && state.last_training_quality_error is None ==>
            verdict(state).len() == 0,
        state.training_quality_report is None && state.last_training_quality_error is Some ==>
            verdict(state).len() == 1 && verdict(state)[0].0 == Tone::Bad,
{
}

/// Retrying is explained where there is an earlier prompt to retry, and refused where there is
/// none.
pub proof fn retrying_needs_an_earlier_prompt(state: AppState)
    ensures
        retry_hints(state).len() == 2 <==> state.training_step.spec_retry(
            state.prompt_count(),
        ) is Some,
        retry_hints(state).len() == 1 <==> state.training_step.spec_retry(
            state.prompt_count(),
        ) is None,
{
}

/// A recorded take is told at the review how to be recorded again; a missing one is not, nor is
/// one elsewhere of which no click is counted.
pub proof fn takes_are_hinted_at_in_review(state: AppState, clip: Option<RecordedClip>)
    ensures
        clip is None ==> item_hint(state, clip) is None,
        clip is Some && state.training_step == TrainingStep::Review ==> item_hint(
            state,
            clip,
        ) is Some,
        clip is Some && state.training_step != TrainingStep::Review
            && state.review_summary_rerecord_confirmation_clicks == 0 ==> item_hint(
            state,
            clip,
        ) is None,
{
}

} // verus!
