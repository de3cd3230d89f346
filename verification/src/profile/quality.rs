//! Judging the recordings of an enrollment.
//!
//! Levels and durations are measured by the caller; what they mean is decided
//! here.

use crate::profile::record::{RecordedClip, RecordingTakeKind, TrainingRecordingManifest};
use crate::profile::record;
use crate::util::float32::Float32;
use crate::util::outcomes;
use crate::util::text;
use vstd::arithmetic::div_mod::*;
use vstd::arithmetic::mul::*;
use vstd::prelude::*;

verus! {

/// 4.5 seconds: an ambient take may not be shorter.
pub const MIN_AMBIENT_DURATION_BITS: u32 = 0x4090_0000;

/// 0.8 seconds: a prompt should not be shorter.
pub const MIN_FIXED_PROMPT_DURATION_BITS: u32 = 0x3F4C_CCCD;

/// 24 seconds: free speech may not be shorter.
pub const MIN_FREE_SPEECH_DURATION_BITS: u32 = 0x41C0_0000;

/// 0.35 seconds of speech that a prompt must hold.
pub const MIN_FIXED_PROMPT_ACTIVE_BITS: u32 = 0x3EB3_3333;

/// 12 seconds of speech that free speech must hold.
pub const MIN_FREE_SPEECH_ACTIVE_BITS: u32 = 0x4140_0000;

/// -32 dBFS: speech below is too soft.
pub const LOW_SPEECH_RMS_BITS: u32 = 0xC200_0000;

/// -40 dBFS: an ambient take above is too loud.
pub const HIGH_AMBIENT_RMS_BITS: u32 = 0xC220_0000;

/// -6 dBFS: a peak of an ambient take above is too loud.
pub const HIGH_AMBIENT_PEAK_BITS: u32 = 0xC0C0_0000;

/// 0.25 seconds of activity that an ambient take may hold.
pub const AMBIENT_ACTIVITY_LIMIT_BITS: u32 = 0x3E80_0000;

/// -42 dBFS: the activity threshold is never lower.
pub const ACTIVITY_THRESHOLD_FLOOR_BITS: u32 = 0xC228_0000;

/// -24 dBFS: the activity threshold is never higher.
pub const ACTIVITY_THRESHOLD_CEILING_BITS: u32 = 0xC1C0_0000;

/// How many frames per second activity is looked for in.
pub const FRAME_RATE_HZ: u32 = 50;

/// How many stretches of speech free speech should hold.
pub const MIN_FREE_SPEECH_SEGMENTS: usize = 4;

// ---------------------------------------------------------------------------
// Issues
// ---------------------------------------------------------------------------
/// How bad it is.
#[derive(Debug, Clone, Copy, PartialEq, Eq, PartialOrd, Ord, Structural)]
pub enum QualitySeverity {
    Passed,
    Warning,
    Error,
}

impl QualitySeverity {
    pub open spec fn spec_label(self) -> Seq<char> {
        match self {
            QualitySeverity::Passed => "通过"@,
            QualitySeverity::Warning => "警告"@,
            QualitySeverity::Error => "错误"@,
        }
    }

    pub fn label(self) -> (r: &'static str)
        ensures
            r@ == self.spec_label(),
    {
        match self {
            QualitySeverity::Passed => "通过",
            QualitySeverity::Warning => "警告",
            QualitySeverity::Error => "错误",
        }
    }

    /// The worse of two severities.
    pub open spec fn spec_worse(self, other: QualitySeverity) -> QualitySeverity {
        if self is Error || other is Error {
            QualitySeverity::Error
        } else if self is Warning || other is Warning {
            QualitySeverity::Warning
        } else {
            QualitySeverity::Passed
        }
    }

    /// The worse of two severities.
    pub fn worse(self, other: QualitySeverity) -> (r: QualitySeverity)
        ensures
            r == self.spec_worse(other),
    {
        match self {
            QualitySeverity::Error => QualitySeverity::Error,
            QualitySeverity::Passed => other,
            QualitySeverity::Warning => match other {
                QualitySeverity::Error => QualitySeverity::Error,
                _ => QualitySeverity::Warning,
            },
        }
    }
}

/// Something that is wrong with the recordings.
#[derive(Debug)]
pub struct QualityIssue {
    pub severity: QualitySeverity,
    pub message: String,
}

impl Clone for QualityIssue {
    fn clone(&self) -> (r: Self)
        ensures
            r == *self,
    {
        QualityIssue { severity: self.severity, message: self.message.clone() }
    }
}

impl View for QualityIssue {
    type V = (QualitySeverity, Seq<char>);

    open spec fn view(&self) -> (QualitySeverity, Seq<char>) {
        (self.severity, self.message@)
    }
}

impl QualityIssue {
    pub fn warning(message: String) -> (r: Self)
        ensures
            r.severity == QualitySeverity::Warning,
            r.message == message,
    {
        QualityIssue { severity: QualitySeverity::Warning, message }
    }

    pub fn error(message: String) -> (r: Self)
        ensures
            r.severity == QualitySeverity::Error,
            r.message == message,
    {
        QualityIssue { severity: QualitySeverity::Error, message }
    }
}

/// A list of issues by their contents.
pub open spec fn issue_views(issues: Seq<QualityIssue>) -> Seq<(QualitySeverity, Seq<char>)> {
    issues.map_values(|issue: QualityIssue| issue@)
}

/// One issue where `holds`, none otherwise.
pub open spec fn noted(holds: bool, severity: QualitySeverity, message: Seq<char>) -> Seq<
    (QualitySeverity, Seq<char>),
> {
    if holds {
        seq![(severity, message)]
    } else {
        seq![]
    }
}

/// Whether an issue of this severity is among `issues`.
pub open spec fn raises(issues: Seq<QualityIssue>, severity: QualitySeverity) -> bool {
    exists|i: int| 0 <= i < issues.len() && (#[trigger] issues[i]).severity == severity
}

/// The severity of the worst issue.
pub open spec fn highest(issues: Seq<QualityIssue>) -> QualitySeverity {
    if raises(issues, QualitySeverity::Error) {
        QualitySeverity::Error
    } else if raises(issues, QualitySeverity::Warning) {
        QualitySeverity::Warning
    } else {
        QualitySeverity::Passed
    }
}

/// The severity of the worst issue.
pub fn highest_issue_severity(issues: &Vec<QualityIssue>) -> (r: QualitySeverity)
    ensures
        r == highest(issues@),
{
    let mut worst = QualitySeverity::Passed;
    let mut i: usize = 0;
    while i < issues.len()
        invariant
            i <= issues.len(),
            worst == highest(issues@.take(i as int)),
        decreases issues.len() - i,
    {
        worst = worst.worse(issues[i].severity);
        proof {
            lemma_highest_push(issues@.take(i as int), issues@[i as int]);
            assert(issues@.take(i + 1) =~= issues@.take(i as int).push(issues@[i as int]));
        }
        i = i + 1;
    }
    assert(issues@.take(i as int) =~= issues@);
    worst
}

proof fn lemma_raises_push(issues: Seq<QualityIssue>, issue: QualityIssue, s: QualitySeverity)
    ensures
        raises(issues.push(issue), s) == (raises(issues, s) || issue.severity == s),
{
    let more = issues.push(issue);
    if raises(issues, s) {
        let k = choose|k: int| 0 <= k < issues.len() && (#[trigger] issues[k]).severity == s;
        assert(more[k].severity == s);
    }
    if issue.severity == s {
        assert(more[issues.len() as int].severity == s);
    }
    if raises(more, s) {
        let k = choose|k: int| 0 <= k < more.len() && (#[trigger] more[k]).severity == s;
        if k < issues.len() {
            assert(issues[k].severity == s);
        }
    }
}

proof fn lemma_highest_push(issues: Seq<QualityIssue>, issue: QualityIssue)
    ensures
        highest(issues.push(issue)) == highest(issues).spec_worse(issue.severity),
{
    lemma_raises_push(issues, issue, QualitySeverity::Error);
    lemma_raises_push(issues, issue, QualitySeverity::Warning);
}

/// How many issues have this severity.
pub open spec fn issue_count(issues: Seq<QualityIssue>, severity: QualitySeverity) -> nat
    decreases issues.len(),
{
    if issues.len() == 0 {
        0
    } else {
        issue_count(issues.drop_last(), severity) + if issues.last().severity == severity {
            1nat
        } else {
            0nat
        }
    }
}

fn count_issues(issues: &Vec<QualityIssue>, severity: QualitySeverity) -> (r: usize)
    ensures
        r == issue_count(issues@, severity),
{
    let mut count: usize = 0;
    let mut i: usize = 0;
    while i < issues.len()
        invariant
            i <= issues.len(),
            count <= i,
            count == issue_count(issues@.take(i as int), severity),
        decreases issues.len() - i,
    {
        assert(issues@.take(i + 1).drop_last() =~= issues@.take(i as int));
        if issues[i].severity == severity {
            count = count + 1;
        }
        i = i + 1;
    }
    assert(issues@.take(i as int) =~= issues@);
    count
}

proof fn lemma_issue_count(issues: Seq<QualityIssue>, severity: QualitySeverity)
    ensures
        issue_count(issues, severity) > 0 <==> raises(issues, severity),
    decreases issues.len(),
{
    if issues.len() > 0 {
        lemma_issue_count(issues.drop_last(), severity);
        assert(issues =~= issues.drop_last().push(issues.last()));
        lemma_raises_push(issues.drop_last(), issues.last(), severity);
    }
}

// ---------------------------------------------------------------------------
// One recording
// ---------------------------------------------------------------------------
/// What was found in one recording.
#[derive(Debug, Clone)]
pub struct ClipQualityReport {
    pub kind: RecordingTakeKind,
    pub label: String,
    pub relative_path: String,
    pub duration_seconds: Float32,
    pub sample_rate_hz: u32,
    pub rms_dbfs: Float32,
    pub active_seconds: Float32,
    pub active_ratio: Float32,
    pub activity_segment_count: usize,
    pub issues: Vec<QualityIssue>,
}

impl ClipQualityReport {
    pub fn severity(&self) -> (r: QualitySeverity)
        ensures
            r == highest(self.issues@),
    {
        highest_issue_severity(&self.issues)
    }
}

/// What was measured of one recording. The texts are the numbers as they are
/// shown.
#[derive(Debug)]
pub struct ClipMeasures {
    /// The level from which a frame was counted as active.
    pub activity_threshold_dbfs: Float32,
    pub rms_dbfs: Float32,
    pub peak_dbfs: Float32,
    pub active_seconds: Float32,
    pub active_ratio: Float32,
    pub activity_segment_count: usize,
    /// The duration with one decimal.
    pub duration_text: String,
    /// The average level with one decimal.
    pub rms_text: String,
    /// The peak level with one decimal.
    pub peak_text: String,
    /// The duration of the speech with one decimal.
    pub active_text: String,
    /// The duration of the speech with two decimals.
    pub active_text_fine: String,
}

/// What is wrong with an ambient take: it is too short, too loud, has a loud
/// peak, or holds activity.
pub open spec fn ambient_issues(duration: Float32, m: ClipMeasures) -> Seq<
    (QualitySeverity, Seq<char>),
> {
    noted(
        duration.less(Float32 { bits: MIN_AMBIENT_DURATION_BITS }),
        QualitySeverity::Error,
        "环境静音录音只有 "@ + m.duration_text@ + " 秒，短于要求的 5 秒。"@,
    ) + noted(
        (Float32 { bits: HIGH_AMBIENT_RMS_BITS }).less(m.rms_dbfs),
        QualitySeverity::Warning,
        "环境静音平均电平偏高（"@ + m.rms_text@ + " dBFS），背景噪声可能较大。"@,
    ) + noted(
        (Float32 { bits: HIGH_AMBIENT_PEAK_BITS }).less(m.peak_dbfs),
        QualitySeverity::Warning,
        "环境静音里出现了明显瞬态峰值（"@ + m.peak_text@
            + " dBFS），请确认录制时没有说话或碰到麦克风。"@,
    ) + noted(
        (Float32 { bits: AMBIENT_ACTIVITY_LIMIT_BITS }).less(m.active_seconds)
            || m.activity_segment_count > 0,
        QualitySeverity::Warning,
        "环境静音中检测到约 "@ + m.active_text@
            + " 秒的明显活动声，建议重录以获得更稳定的噪声基线。"@,
    )
}

/// Whether a prompt holds too little speech.
pub open spec fn prompt_lacks_speech(m: ClipMeasures) -> bool {
    m.active_seconds.less(Float32 { bits: MIN_FIXED_PROMPT_ACTIVE_BITS })
        || m.activity_segment_count == 0
}

/// What is wrong with a prompt: it is too short, holds too little speech, or
/// the speech is too soft.
pub open spec fn prompt_issues(index: usize, duration: Float32, m: ClipMeasures) -> Seq<
    (QualitySeverity, Seq<char>),
> {
    let number = text::decimal_two((index + 1) as nat);
    noted(
        duration.less(Float32 { bits: MIN_FIXED_PROMPT_DURATION_BITS }),
        QualitySeverity::Warning,
        "固定短句 "@ + number + " 总时长只有 "@ + m.duration_text@ + " 秒，可能录得过短。"@,
    ) + noted(
        prompt_lacks_speech(m),
        QualitySeverity::Error,
        "固定短句 "@ + number + " 的有效语音不足（"@ + m.active_text_fine@ + " 秒），建议重录。"@,
    ) + noted(
        !prompt_lacks_speech(m) && m.rms_dbfs.less(Float32 { bits: LOW_SPEECH_RMS_BITS }),
        QualitySeverity::Warning,
        "固定短句 "@ + number + " 平均音量偏低（"@ + m.rms_text@ + " dBFS）。"@,
    )
}

/// Whether free speech holds too little speech.
pub open spec fn free_speech_lacks_speech(m: ClipMeasures) -> bool {
    m.active_seconds.less(Float32 { bits: MIN_FREE_SPEECH_ACTIVE_BITS })
}

/// What is wrong with free speech: it is too short, holds too little speech or
/// too few stretches of it, or the speech is too soft.
pub open spec fn free_speech_issues(duration: Float32, m: ClipMeasures) -> Seq<
    (QualitySeverity, Seq<char>),
> {
    noted(
        duration.less(Float32 { bits: MIN_FREE_SPEECH_DURATION_BITS }),
        QualitySeverity::Error,
        "自由发挥录音只有 "@ + m.duration_text@ + " 秒，低于建议的 30 秒。"@,
    ) + noted(
        free_speech_lacks_speech(m),
        QualitySeverity::Error,
        "自由发挥有效语音只有 "@ + m.active_text@ + " 秒，明显不足，建议重录。"@,
    ) + noted(
        m.activity_segment_count < MIN_FREE_SPEECH_SEGMENTS,
        QualitySeverity::Warning,
        "自由发挥检测到的语音片段数量较少（"@ + text::decimal(m.activity_segment_count as nat)
            + " 段），语速/停顿覆盖可能不够。"@,
    ) + noted(
        !free_speech_lacks_speech(m) && m.rms_dbfs.less(Float32 { bits: LOW_SPEECH_RMS_BITS }),
        QualitySeverity::Warning,
        "自由发挥平均音量偏低（"@ + m.rms_text@ + " dBFS）。"@,
    )
}

/// What is wrong with a recording.
pub open spec fn clip_issues(clip: RecordedClip, m: ClipMeasures) -> Seq<
    (QualitySeverity, Seq<char>),
> {
    match clip.kind {
        RecordingTakeKind::AmbientSilence => ambient_issues(clip.duration_seconds, m),
        RecordingTakeKind::FixedPrompt { index } => prompt_issues(index, clip.duration_seconds, m),
        RecordingTakeKind::FreeSpeech => free_speech_issues(clip.duration_seconds, m),
    }
}

/// Adds the issue to `issues` where `holds`.
fn note(issues: &mut Vec<QualityIssue>, holds: bool, severity: QualitySeverity, message: String)
    ensures
        issue_views(final(issues)@) == issue_views(old(issues)@) + noted(
            holds,
            severity,
            message@,
        ),
{
    let ghost before = issue_views(issues@);
    if holds {
        let ghost said = message@;
        issues.push(QualityIssue { severity, message });
        assert(issue_views(issues@) =~= before + noted(true, severity, said));
    } else {
        assert(before + noted(false, severity, message@) =~= before);
    }
}

fn populate_ambient_issues(duration: Float32, m: &ClipMeasures, issues: &mut Vec<QualityIssue>)
    ensures
        issue_views(final(issues)@) == issue_views(old(issues)@) + ambient_issues(duration, *m),
{
    let ghost before = issue_views(issues@);
    note(
        issues,
        duration.lt(Float32 { bits: MIN_AMBIENT_DURATION_BITS }),
        QualitySeverity::Error,
        text::joined3("环境静音录音只有 ", m.duration_text.as_str(), " 秒，短于要求的 5 秒。"),
    );
    note(
        issues,
        m.rms_dbfs.gt(Float32 { bits: HIGH_AMBIENT_RMS_BITS }),
        QualitySeverity::Warning,
        text::joined3(
            "环境静音平均电平偏高（",
            m.rms_text.as_str(),
            " dBFS），背景噪声可能较大。",
        ),
    );
    note(
        issues,
        m.peak_dbfs.gt(Float32 { bits: HIGH_AMBIENT_PEAK_BITS }),
        QualitySeverity::Warning,
        text::joined3(
            "环境静音里出现了明显瞬态峰值（",
            m.peak_text.as_str(),
            " dBFS），请确认录制时没有说话或碰到麦克风。",
        ),
    );
    note(
        issues,
        m.active_seconds.gt(Float32 { bits: AMBIENT_ACTIVITY_LIMIT_BITS })
            || m.activity_segment_count > 0,
        QualitySeverity::Warning,
        text::joined3(
            "环境静音中检测到约 ",
            m.active_text.as_str(),
            " 秒的明显活动声，建议重录以获得更稳定的噪声基线。",
        ),
    );
    assert(issue_views(issues@) =~= before + ambient_issues(duration, *m));
}

fn populate_prompt_issues(
    index: usize,
    duration: Float32,
    m: &ClipMeasures,
    issues: &mut Vec<QualityIssue>,
)
    requires
        index < usize::MAX,
    ensures
        issue_views(final(issues)@) == issue_views(old(issues)@) + prompt_issues(
            index,
            duration,
            *m,
        ),
{
    let ghost before = issue_views(issues@);
    let number = text::decimal_two_text(index as u64 + 1);
    let lacks_speech = m.active_seconds.lt(Float32 { bits: MIN_FIXED_PROMPT_ACTIVE_BITS })
        || m.activity_segment_count == 0;
    let mut short = text::joined3("固定短句 ", number.as_str(), " 总时长只有 ");
    short.append(m.duration_text.as_str());
    short.append(" 秒，可能录得过短。");
    note(
        issues,
        duration.lt(Float32 { bits: MIN_FIXED_PROMPT_DURATION_BITS }),
        QualitySeverity::Warning,
        short,
    );
    let mut silent = text::joined3("固定短句 ", number.as_str(), " 的有效语音不足（");
    silent.append(m.active_text_fine.as_str());
    silent.append(" 秒），建议重录。");
    note(issues, lacks_speech, QualitySeverity::Error, silent);
    let mut soft = text::joined3("固定短句 ", number.as_str(), " 平均音量偏低（");
    soft.append(m.rms_text.as_str());
    soft.append(" dBFS）。");
    note(
        issues,
        !lacks_speech && m.rms_dbfs.lt(Float32 { bits: LOW_SPEECH_RMS_BITS }),
        QualitySeverity::Warning,
        soft,
    );
    assert(issue_views(issues@) =~= before + prompt_issues(index, duration, *m));
}

fn populate_free_speech_issues(duration: Float32, m: &ClipMeasures, issues: &mut Vec<QualityIssue>)
    ensures
        issue_views(final(issues)@) == issue_views(old(issues)@) + free_speech_issues(
            duration,
            *m,
        ),
{
    let ghost before = issue_views(issues@);
    let lacks_speech = m.active_seconds.lt(Float32 { bits: MIN_FREE_SPEECH_ACTIVE_BITS });
    note(
        issues,
        duration.lt(Float32 { bits: MIN_FREE_SPEECH_DURATION_BITS }),
        QualitySeverity::Error,
        text::joined3("自由发挥录音只有 ", m.duration_text.as_str(), " 秒，低于建议的 30 秒。"),
    );
    note(
        issues,
        lacks_speech,
        QualitySeverity::Error,
        text::joined3(
            "自由发挥有效语音只有 ",
            m.active_text.as_str(),
            " 秒，明显不足，建议重录。",
        ),
    );
    let count = text::decimal_text(m.activity_segment_count as u64);
    note(
        issues,
        m.activity_segment_count < MIN_FREE_SPEECH_SEGMENTS,
        QualitySeverity::Warning,
        text::joined3(
            "自由发挥检测到的语音片段数量较少（",
            count.as_str(),
            " 段），语速/停顿覆盖可能不够。",
        ),
    );
    note(
        issues,
        !lacks_speech && m.rms_dbfs.lt(Float32 { bits: LOW_SPEECH_RMS_BITS }),
        QualitySeverity::Warning,
        text::joined3("自由发挥平均音量偏低（", m.rms_text.as_str(), " dBFS）。"),
    );
    assert(issue_views(issues@) =~= before + free_speech_issues(duration, *m));
}

/// Adds what is wrong with a recording to `issues`.
pub fn populate_clip_issues(clip: &RecordedClip, m: &ClipMeasures, issues: &mut Vec<QualityIssue>)
    requires
        clip.kind.is_numbered(),
    ensures
        issue_views(final(issues)@) == issue_views(old(issues)@) + clip_issues(*clip, *m),
{
    match clip.kind {
        RecordingTakeKind::AmbientSilence => {
            populate_ambient_issues(clip.duration_seconds, m, issues);
        },
        RecordingTakeKind::FixedPrompt { index } => {
            populate_prompt_issues(index, clip.duration_seconds, m, issues);
        },
        RecordingTakeKind::FreeSpeech => {
            populate_free_speech_issues(clip.duration_seconds, m, issues);
        },
    }
}

/// Whether `report` is what the measures say of `clip`.
pub open spec fn is_report_of(
    report: ClipQualityReport,
    clip: RecordedClip,
    m: ClipMeasures,
) -> bool {
    &&& report.kind == clip.kind
    &&& report.label == clip.label
    &&& report.relative_path == clip.relative_path
    &&& report.duration_seconds == clip.duration_seconds
    &&& report.sample_rate_hz == clip.sample_rate_hz
    &&& report.rms_dbfs == m.rms_dbfs
    &&& report.active_seconds == m.active_seconds
    &&& report.active_ratio == m.active_ratio
    &&& report.activity_segment_count == m.activity_segment_count
    &&& issue_views(report.issues@) == clip_issues(clip, m)
}

/// Judges a recording by what was measured of it.
pub fn analyze_samples(clip: &RecordedClip, m: &ClipMeasures) -> (r: ClipQualityReport)
    requires
        clip.kind.is_numbered(),
    ensures
        is_report_of(r, *clip, *m),
{
    let mut issues: Vec<QualityIssue> = Vec::new();
    populate_clip_issues(clip, m, &mut issues);
    assert(issue_views(issues@) =~= clip_issues(*clip, *m));
    ClipQualityReport {
        kind: clip.kind,
        label: clip.label.clone(),
        relative_path: clip.relative_path.clone(),
        duration_seconds: clip.duration_seconds,
        sample_rate_hz: clip.sample_rate_hz,
        rms_dbfs: m.rms_dbfs,
        active_seconds: m.active_seconds,
        active_ratio: m.active_ratio,
        activity_segment_count: m.activity_segment_count,
        issues,
    }
}

/// A recording without a sample rate cannot be judged.
pub fn analyze_clip(clip: &RecordedClip, m: &ClipMeasures) -> (r: Result<ClipQualityReport, String>)
    requires
        clip.kind.is_numbered(),
    ensures
        r is Ok <==> clip.sample_rate_hz > 0,
        r matches Ok(report) ==> is_report_of(report, *clip, *m),
        r matches Err(words) ==> words@ == "clip sample rate must be positive for "@
            + clip.relative_path@,
{
    if clip.sample_rate_hz == 0 {
        return Err(
            text::joined("clip sample rate must be positive for ", clip.relative_path.as_str()),
        );
    }
    Ok(analyze_samples(clip, m))
}

/// Where the analysis of a recording failed, in words.
pub open spec fn analysis_words(kind: RecordingTakeKind, path: Seq<char>) -> Seq<char> {
    match kind {
        RecordingTakeKind::AmbientSilence => "failed to analyze ambient recording: "@ + path,
        RecordingTakeKind::FixedPrompt { index } => "failed to analyze fixed prompt recording "@
            + text::decimal_two((index + 1) as nat) + ": "@ + path,
        RecordingTakeKind::FreeSpeech => "failed to analyze free speech recording: "@ + path,
    }
}

/// Where the analysis of the recording in slot `kind` failed, in words.
pub fn analysis_context(kind: RecordingTakeKind, path: &str) -> (r: String)
    requires
        kind.is_numbered(),
    ensures
        r@ == analysis_words(kind, path@),
{
    match kind {
        RecordingTakeKind::AmbientSilence => {
            text::joined("failed to analyze ambient recording: ", path)
        },
        RecordingTakeKind::FixedPrompt { index } => {
            let number = text::decimal_two_text(index as u64 + 1);
            let mut words = text::joined3(
                "failed to analyze fixed prompt recording ",
                number.as_str(),
                ": ",
            );
            words.append(path);
            words
        },
        RecordingTakeKind::FreeSpeech => {
            text::joined("failed to analyze free speech recording: ", path)
        },
    }
}

// ---------------------------------------------------------------------------
// Activity
// ---------------------------------------------------------------------------
/// The largest magnitude among samples, 0 where there are none.
pub open spec fn peak_magnitude(samples: Seq<Float32>) -> Float32
    decreases samples.len(),
{
    if samples.len() == 0 {
        Float32 { bits: 0 }
    } else {
        peak_magnitude(samples.drop_last()).spec_larger(samples.last().spec_abs())
    }
}

/// The largest magnitude among samples.
pub fn peak_linear(samples: &Vec<Float32>) -> (r: Float32)
    ensures
        r == peak_magnitude(samples@),
{
    let mut peak = Float32 { bits: 0 };
    let mut i: usize = 0;
    while i < samples.len()
        invariant
            i <= samples.len(),
            peak == peak_magnitude(samples@.take(i as int)),
        decreases samples.len() - i,
    {
        assert(samples@.take(i + 1).drop_last() =~= samples@.take(i as int));
        peak = peak.larger(samples[i].abs());
        i = i + 1;
    }
    assert(samples@.take(i as int) =~= samples@);
    peak
}

/// How many samples make a frame in which activity is looked for.
pub open spec fn activity_frame(sample_rate_hz: u32) -> int {
    let size = sample_rate_hz as int / FRAME_RATE_HZ as int;
    if size < 1 {
        1
    } else {
        size
    }
}

/// How many frames a recording has; the last one may be shorter.
pub open spec fn activity_frame_count(sample_count: int, sample_rate_hz: u32) -> int {
    let size = activity_frame(sample_rate_hz);
    (sample_count + size - 1) / size
}

/// How many samples frame `i` has.
pub open spec fn activity_frame_len(sample_count: int, sample_rate_hz: u32, i: int) -> int {
    let size = activity_frame(sample_rate_hz);
    if (i + 1) * size <= sample_count {
        size
    } else {
        sample_count - i * size
    }
}

/// How many samples stand in those of the first `n` frames that reach the
/// threshold.
pub open spec fn active_samples(
    sample_count: int,
    sample_rate_hz: u32,
    threshold: Float32,
    levels: Seq<Float32>,
    n: int,
) -> int
    decreases n,
{
    if n <= 0 {
        0
    } else {
        active_samples(sample_count, sample_rate_hz, threshold, levels, n - 1)
            + if threshold.at_most(levels[n - 1]) {
            activity_frame_len(sample_count, sample_rate_hz, n - 1)
        } else {
            0
        }
    }
}

/// Whether a stretch of activity begins with frame `i`.
pub open spec fn segment_begins(threshold: Float32, levels: Seq<Float32>, i: int) -> bool {
    threshold.at_most(levels[i]) && (i == 0 || !threshold.at_most(levels[i - 1]))
}

/// How many stretches of activity begin in the first `n` frames.
pub open spec fn segment_count(threshold: Float32, levels: Seq<Float32>, n: int) -> int
    decreases n,
{
    if n <= 0 {
        0
    } else {
        segment_count(threshold, levels, n - 1) + if segment_begins(threshold, levels, n - 1) {
            1int
        } else {
            0int
        }
    }
}

/// What counting the active frames of a recording gives.
#[derive(Debug, Clone, Copy, PartialEq, Eq)]
pub struct ActivityCount {
    pub active_sample_count: usize,
    pub activity_segment_count: usize,
}

/// The size of the frames in which activity is looked for.
pub fn activity_frame_size(sample_rate_hz: u32) -> (r: usize)
    ensures
        r == activity_frame(sample_rate_hz),
{
    let size: u32 = sample_rate_hz / FRAME_RATE_HZ;
    if size < 1 {
        1
    } else {
        size as usize
    }
}

/// Counts active samples and stretches of activity, given the level of every
/// frame.
pub fn analyze_activity(
    sample_count: usize,
    sample_rate_hz: u32,
    activity_threshold_dbfs: Float32,
    levels: &Vec<Float32>,
) -> (r: ActivityCount)
    requires
        sample_count > 0 && sample_rate_hz > 0 ==> levels@.len() == activity_frame_count(
            sample_count as int,
            sample_rate_hz,
        ),
    ensures
        sample_count == 0 || sample_rate_hz == 0 ==> r.active_sample_count == 0
            && r.activity_segment_count == 0,
        sample_count > 0 && sample_rate_hz > 0 ==> {
            &&& r.active_sample_count == active_samples(
                sample_count as int,
                sample_rate_hz,
                activity_threshold_dbfs,
                levels@,
                levels@.len() as int,
            )
            &&& r.activity_segment_count == segment_count(
                activity_threshold_dbfs,
                levels@,
                levels@.len() as int,
            )
        },
        r.active_sample_count <= sample_count,
{
    if sample_count == 0 || sample_rate_hz == 0 {
        return ActivityCount { active_sample_count: 0, activity_segment_count: 0 };
    }
    let size = activity_frame_size(sample_rate_hz);
    let ghost f = activity_frame(sample_rate_hz);
    let ghost n = sample_count as int;
    let mut active: usize = 0;
    let mut segments: usize = 0;
    let mut previous = false;
    let mut start: usize = 0;
    let mut i: usize = 0;
    while i < levels.len()
        invariant
            i <= levels.len(),
            size == f,
            f == activity_frame(sample_rate_hz),
            f >= 1,
            n == sample_count,
            n > 0,
            levels@.len() == activity_frame_count(n, sample_rate_hz),
            start == if i * f <= n {
                i * f
            } else {
                n
            },
            i < levels.len() ==> i * f < n,
            previous == (i > 0 && activity_threshold_dbfs.at_most(levels@[i - 1])),
            active == active_samples(
                n,
                sample_rate_hz,
                activity_threshold_dbfs,
                levels@,
                i as int,
            ),
            0 <= active <= start,
            segments == segment_count(activity_threshold_dbfs, levels@, i as int),
            segments <= i,
        decreases levels.len() - i,
    {
        assert((i + 1) * f == i * f + f) by (nonlinear_arith);
        let room: usize = sample_count - start;
        let len: usize = if size <= room {
            size
        } else {
            room
        };
        let is_active = levels[i].ge(activity_threshold_dbfs);
        if is_active {
            active = active + len;
            if !previous {
                segments = segments + 1;
            }
        }
        previous = is_active;
        start = start + len;
        i = i + 1;
        proof {
            if i < levels.len() {
                lemma_frame_starts_inside(n, sample_rate_hz, i as int);
            }
        }
    }
    ActivityCount { active_sample_count: active, activity_segment_count: segments }
}

proof fn lemma_frame_starts_inside(sample_count: int, sample_rate_hz: u32, i: int)
    requires
        0 <= i < activity_frame_count(sample_count, sample_rate_hz),
    ensures
        i * activity_frame(sample_rate_hz) < sample_count,
{
    let size = activity_frame(sample_rate_hz);
    let total = sample_count + size - 1;
    lemma_fundamental_div_mod(total, size);
    lemma_mod_bound(total, size);
    let q = total / size;
    assert(size * q == q * size) by (nonlinear_arith);
    lemma_mul_inequality(i + 1, q, size);
    assert((i + 1) * size == i * size + size) by (nonlinear_arith);
}

/// The level from which a frame counts as speech: the ambient level with the
/// margin added, kept between floor and ceiling; the floor where there is no
/// ambient take.
pub open spec fn activity_threshold(raised_ambient: Option<Float32>) -> Float32 {
    let floor = Float32 { bits: ACTIVITY_THRESHOLD_FLOOR_BITS };
    match raised_ambient {
        Some(level) => level.spec_clamped(
            floor,
            Float32 { bits: ACTIVITY_THRESHOLD_CEILING_BITS },
        ),
        None => floor,
    }
}

/// The activity threshold for speech, from the ambient level with the margin
/// added.
pub fn speech_activity_threshold_from_ambient(raised_ambient: Option<Float32>) -> (r: Float32)
    ensures
        r == activity_threshold(raised_ambient),
{
    let floor = Float32 { bits: ACTIVITY_THRESHOLD_FLOOR_BITS };
    match raised_ambient {
        Some(level) => level.clamped(floor, Float32 { bits: ACTIVITY_THRESHOLD_CEILING_BITS }),
        None => floor,
    }
}

// ---------------------------------------------------------------------------
// All recordings together
// ---------------------------------------------------------------------------
/// What was found in all recordings.
#[derive(Debug, Clone)]
pub struct QualityReport {
    pub expected_prompt_count: usize,
    pub recorded_prompt_count: usize,
    pub ambient_rms_dbfs: Option<Float32>,
    pub speech_activity_threshold_dbfs: Float32,
    pub total_active_speech_seconds: Float32,
    pub clip_reports: Vec<ClipQualityReport>,
    pub issues: Vec<QualityIssue>,
}

/// What was measured of all speech together. The texts are the numbers as they
/// are shown, with one decimal.
#[derive(Debug)]
pub struct SpeechTotals {
    /// The ambient level with the margin added, where there is an ambient take.
    pub raised_ambient_dbfs: Option<Float32>,
    /// The sum of all that `speech_seconds` hands out.
    pub total_active_seconds: Float32,
    pub minimum_active_seconds: Float32,
    pub total_text: String,
    pub minimum_text: String,
}

/// A recording that is to be judged.
#[derive(Debug)]
pub struct ClipToJudge {
    /// The take that it stands for.
    pub slot: RecordingTakeKind,
    pub clip: RecordedClip,
    /// The level from which a frame counts as active.
    pub activity_threshold_dbfs: Float32,
}

/// The recorded prompts, each with its slot and the threshold for speech.
pub open spec fn prompts_to_judge(slots: Seq<Option<RecordedClip>>, threshold: Float32) -> Seq<
    ClipToJudge,
>
    decreases slots.len(),
{
    if slots.len() == 0 {
        seq![]
    } else {
        let rest = prompts_to_judge(slots.drop_last(), threshold);
        match slots.last() {
            Some(clip) => rest.push(
                ClipToJudge {
                    slot: RecordingTakeKind::FixedPrompt { index: (slots.len() - 1) as usize },
                    clip,
                    activity_threshold_dbfs: threshold,
                },
            ),
            None => rest,
        }
    }
}

/// A recording that may be there, as one to be judged.
pub open spec fn one_to_judge(
    slot: RecordingTakeKind,
    clip: Option<RecordedClip>,
    threshold: Float32,
) -> Seq<ClipToJudge> {
    match clip {
        Some(recorded) => seq![
            ClipToJudge { slot, clip: recorded, activity_threshold_dbfs: threshold },
        ],
        None => seq![],
    }
}

/// All recordings, in the order in which they are judged: the ambient take, by the
/// lowest threshold; the prompts and the free speech, by the threshold that follows
/// from the ambient level with the margin added.
pub open spec fn to_judge(
    manifest: TrainingRecordingManifest,
    raised_ambient: Option<Float32>,
) -> Seq<ClipToJudge> {
    let threshold = activity_threshold(raised_ambient);
    one_to_judge(
        RecordingTakeKind::AmbientSilence,
        manifest.ambient_silence,
        Float32 { bits: ACTIVITY_THRESHOLD_FLOOR_BITS },
    ) + prompts_to_judge(manifest.fixed_prompts@, threshold) + one_to_judge(
        RecordingTakeKind::FreeSpeech,
        manifest.free_speech,
        threshold,
    )
}

/// The recordings to judge, in order.
fn clips_to_judge(
    manifest: &TrainingRecordingManifest,
    raised_ambient: Option<Float32>,
) -> (r: Vec<ClipToJudge>)
    ensures
        r@ == to_judge(*manifest, raised_ambient),
{
    let threshold = speech_activity_threshold_from_ambient(raised_ambient);
    let mut list: Vec<ClipToJudge> = Vec::new();
    if let Some(clip) = &manifest.ambient_silence {
        list.push(
            ClipToJudge {
                slot: RecordingTakeKind::AmbientSilence,
                clip: clip.clone(),
                activity_threshold_dbfs: Float32 { bits: ACTIVITY_THRESHOLD_FLOOR_BITS },
            },
        );
    }
    let ghost head = list@;
    let ghost slots = manifest.fixed_prompts@;
    assert(head =~= one_to_judge(
        RecordingTakeKind::AmbientSilence,
        manifest.ambient_silence,
        Float32 { bits: ACTIVITY_THRESHOLD_FLOOR_BITS },
    ));
    assert(head =~= head + prompts_to_judge(slots.take(0), threshold));
    let mut i: usize = 0;
    while i < manifest.fixed_prompts.len()
        invariant
            i <= manifest.fixed_prompts.len(),
            slots == manifest.fixed_prompts@,
            list@ == head + prompts_to_judge(slots.take(i as int), threshold),
        decreases manifest.fixed_prompts.len() - i,
    {
        assert(slots.take(i + 1).drop_last() =~= slots.take(i as int));
        if let Some(clip) = &manifest.fixed_prompts[i] {
            list.push(
                ClipToJudge {
                    slot: RecordingTakeKind::FixedPrompt { index: i },
                    clip: clip.clone(),
                    activity_threshold_dbfs: threshold,
                },
            );
        }
        i = i + 1;
        assert(list@ =~= head + prompts_to_judge(slots.take(i as int), threshold));
    }
    assert(slots.take(i as int) =~= slots);
    if let Some(clip) = &manifest.free_speech {
        list.push(
            ClipToJudge {
                slot: RecordingTakeKind::FreeSpeech,
                clip: clip.clone(),
                activity_threshold_dbfs: threshold,
            },
        );
    }
    assert(list@ =~= to_judge(*manifest, raised_ambient));
    list
}

/// The recording to measure once `measured` of them have been, if any is left.
pub fn next_to_judge(
    manifest: &TrainingRecordingManifest,
    raised_ambient: Option<Float32>,
    measured: usize,
) -> (r: Option<ClipToJudge>)
    ensures
        r == if measured < to_judge(*manifest, raised_ambient).len() {
            Some(to_judge(*manifest, raised_ambient)[measured as int])
        } else {
            None
        },
{
    let mut list = clips_to_judge(manifest, raised_ambient);
    if measured < list.len() {
        Some(list.remove(measured))
    } else {
        None
    }
}

/// The seconds of speech in the first `n` recordings that were measured, less the
/// first `skipped` of them.
pub open spec fn counted_seconds(
    measures: Seq<Result<ClipMeasures, String>>,
    skipped: int,
    n: int,
) -> Seq<Float32>
    decreases n,
{
    if n <= skipped || n <= 0 {
        seq![]
    } else {
        let rest = counted_seconds(measures, skipped, n - 1);
        match measures[n - 1] {
            Ok(m) => rest.push(m.active_seconds),
            Err(_) => rest,
        }
    }
}

/// How many of the recordings are ambient takes.
pub open spec fn ambient_count(manifest: TrainingRecordingManifest) -> int {
    if manifest.ambient_silence is Some {
        1
    } else {
        0
    }
}

/// The seconds of speech that count together: those of all takes but the ambient
/// one, in order.
pub fn speech_seconds(
    manifest: &TrainingRecordingManifest,
    measures: &Vec<Result<ClipMeasures, String>>,
) -> (r: Vec<Float32>)
    ensures
        r@ == counted_seconds(measures@, ambient_count(*manifest), measures@.len() as int),
{
    let skipped: usize = if manifest.ambient_silence.is_some() {
        1
    } else {
        0
    };
    let mut seconds: Vec<Float32> = Vec::new();
    let mut i: usize = skipped;
    while i < measures.len()
        invariant
            skipped == ambient_count(*manifest),
            skipped <= i,
            i <= measures.len() || i == skipped,
            seconds@ == counted_seconds(measures@, skipped as int, i as int),
        decreases measures.len() - i,
    {
        if let Ok(m) = &measures[i] {
            seconds.push(m.active_seconds);
        }
        i = i + 1;
    }
    seconds
}

/// Where and why the analysis of a recording failed.
#[derive(Debug)]
pub struct AnalysisFailure {
    pub context: String,
    pub detail: String,
}

/// Whether the recording at position `i` cannot be judged: it could not be measured,
/// or has no sample rate.
pub open spec fn fails_at(
    plan: Seq<ClipToJudge>,
    measures: Seq<Result<ClipMeasures, String>>,
    i: int,
) -> bool {
    measures[i] is Err || plan[i].clip.sample_rate_hz == 0
}

/// Whether `failure` is that of the recording at position `i`, the first that fails.
pub open spec fn first_fails_at(
    plan: Seq<ClipToJudge>,
    measures: Seq<Result<ClipMeasures, String>>,
    failure: AnalysisFailure,
    i: int,
) -> bool {
    let path = plan[i].clip.relative_path@;
    &&& 0 <= i < measures.len()
    &&& fails_at(plan, measures, i)
    &&& forall|k: int| 0 <= k < i ==> !fails_at(plan, measures, k)
    &&& failure.context@ == analysis_words(plan[i].slot, path)
    &&& failure.detail@ == match measures[i] {
        Err(detail) => detail@,
        Ok(_) => "clip sample rate must be positive for "@ + path,
    }
}

/// Whether `failure` is that of the first recording that fails.
pub open spec fn first_fails(
    plan: Seq<ClipToJudge>,
    measures: Seq<Result<ClipMeasures, String>>,
    failure: AnalysisFailure,
) -> bool {
    exists|i: int| #[trigger] first_fails_at(plan, measures, failure, i)
}

/// Judges recordings in order, given what was measured of each; one that cannot be
/// judged ends it.
fn judge_clips(
    plan: &Vec<ClipToJudge>,
    measures: &Vec<Result<ClipMeasures, String>>,
) -> (r: Result<Vec<ClipQualityReport>, AnalysisFailure>)
    requires
        outcomes::reaches(measures@, plan@.len()),
        forall|i: int|
            0 <= i < plan@.len() ==> (#[trigger] plan@[i]).slot.is_numbered()
                && plan@[i].clip.kind.is_numbered(),
    ensures
        match r {
            Ok(reports) => {
                &&& measures@.len() == plan@.len()
                &&& reports@.len() == plan@.len()
                &&& forall|i: int| 0 <= i < plan@.len() ==> !fails_at(plan@, measures@, i)
                &&& forall|i: int|
                    0 <= i < plan@.len() ==> is_report_of(
                        #[trigger] reports@[i],
                        plan@[i].clip,
                        measures@[i]->Ok_0,
                    )
            },
            Err(failure) => first_fails(plan@, measures@, failure),
        },
{
    let mut reports: Vec<ClipQualityReport> = Vec::new();
    let mut i: usize = 0;
    while i < measures.len()
        invariant
            i <= measures.len() <= plan.len(),
            outcomes::reaches(measures@, plan@.len()),
            forall|k: int|
                0 <= k < plan@.len() ==> (#[trigger] plan@[k]).slot.is_numbered()
                    && plan@[k].clip.kind.is_numbered(),
            reports@.len() == i,
            forall|k: int| 0 <= k < i ==> !fails_at(plan@, measures@, k),
            forall|k: int|
                0 <= k < i ==> is_report_of(
                    #[trigger] reports@[k],
                    plan@[k].clip,
                    measures@[k]->Ok_0,
                ),
        decreases measures.len() - i,
    {
        let item = &plan[i];
        let detail = match &measures[i] {
            Err(detail) => detail.clone(),
            Ok(m) => match analyze_clip(&item.clip, m) {
                Ok(report) => {
                    reports.push(report);
                    i = i + 1;
                    continue;
                },
                Err(detail) => detail,
            },
        };
        let failure = AnalysisFailure {
            context: analysis_context(item.slot, item.clip.relative_path.as_str()),
            detail,
        };
        assert(first_fails_at(plan@, measures@, failure, i as int));
        return Err(failure);
    }
    assert(measures@.len() < plan@.len() ==> fails_at(plan@, measures@, measures@.len() - 1));
    Ok(reports)
}

/// Whether every recording has a number that can be written down.
pub open spec fn manifest_is_numbered(manifest: TrainingRecordingManifest) -> bool {
    forall|i: int|
        0 <= i < manifest.clips().len() ==> (#[trigger] manifest.clips()[i]).kind.is_numbered()
}

/// Whether the recordings were measured in order, each by its threshold, and the
/// threshold for speech follows from the ambient take wherever it could be measured.
pub open spec fn measured_as_planned(
    manifest: TrainingRecordingManifest,
    measures: Seq<Result<ClipMeasures, String>>,
    raised_ambient: Option<Float32>,
) -> bool {
    let plan = to_judge(manifest, raised_ambient);
    &&& outcomes::reaches(measures, plan.len())
    &&& raised_ambient is Some <==> manifest.ambient_silence is Some && measures[0] is Ok
    &&& forall|i: int|
        0 <= i < measures.len() ==> ((#[trigger] measures[i]) matches Ok(m)
            ==> m.activity_threshold_dbfs == plan[i].activity_threshold_dbfs)
}

proof fn lemma_prompts_to_judge(slots: Seq<Option<RecordedClip>>, threshold: Float32)
    requires
        slots.len() <= usize::MAX,
    ensures
        prompts_to_judge(slots, threshold).map_values(|item: ClipToJudge| item.clip)
            == record::present(slots),
        forall|i: int|
            0 <= i < prompts_to_judge(slots, threshold).len() ==> {
                let item = #[trigger] prompts_to_judge(slots, threshold)[i];
                &&& item.slot matches RecordingTakeKind::FixedPrompt { index }
                &&& index < slots.len()
                &&& slots[index as int] == Some(item.clip)
                &&& item.activity_threshold_dbfs == threshold
            },
    decreases slots.len(),
{
    if slots.len() > 0 {
        let rest = slots.drop_last();
        lemma_prompts_to_judge(rest, threshold);
        let before = prompts_to_judge(rest, threshold);
        let all = prompts_to_judge(slots, threshold);
        assert(all.map_values(|item: ClipToJudge| item.clip) =~= record::present(slots));
        assert forall|i: int| 0 <= i < all.len() implies {
            let item = #[trigger] all[i];
            &&& item.slot matches RecordingTakeKind::FixedPrompt { index }
            &&& index < slots.len()
            &&& slots[index as int] == Some(item.clip)
            &&& item.activity_threshold_dbfs == threshold
        } by {
            if i < before.len() {
                assert(all[i] == before[i]);
            }
        }
    } else {
        assert(prompts_to_judge(slots, threshold).map_values(|item: ClipToJudge| item.clip)
            =~= record::present(slots));
    }
}

proof fn lemma_plan(manifest: TrainingRecordingManifest, raised_ambient: Option<Float32>)
    requires
        manifest.fixed_prompts@.len() <= usize::MAX,
    ensures
        to_judge(manifest, raised_ambient).map_values(|item: ClipToJudge| item.clip)
            == manifest.clips(),
        forall|i: int|
            0 <= i < to_judge(manifest, raised_ambient).len() ==> (#[trigger] to_judge(
                manifest,
                raised_ambient,
            )[i]).slot.is_numbered() && to_judge(manifest, raised_ambient)[i].clip
                == manifest.clips()[i],
{
    let plan = to_judge(manifest, raised_ambient);
    lemma_prompts_to_judge(manifest.fixed_prompts@, activity_threshold(raised_ambient));
    assert(plan.map_values(|item: ClipToJudge| item.clip) =~= manifest.clips());
    assert forall|i: int| 0 <= i < plan.len() implies (#[trigger] plan[i]).slot.is_numbered()
        && plan[i].clip == manifest.clips()[i] by {
        assert(plan.map_values(|item: ClipToJudge| item.clip)[i] == plan[i].clip);
    }
}

/// An error for every one of the first `n` prompts that is not recorded.
pub open spec fn missing_prompt_issues(slots: Seq<Option<RecordedClip>>, n: int) -> Seq<
    (QualitySeverity, Seq<char>),
>
    decreases n,
{
    if n <= 0 {
        seq![]
    } else {
        missing_prompt_issues(slots, n - 1) + noted(
            slots[n - 1] is None,
            QualitySeverity::Error,
            "缺少固定短句 "@ + text::decimal_two(n as nat) + " 的录音。"@,
        )
    }
}

/// What is wrong with the recordings as a whole: takes that are missing, and too
/// little speech where none is.
pub open spec fn manifest_issues(
    manifest: TrainingRecordingManifest,
    totals: SpeechTotals,
) -> Seq<(QualitySeverity, Seq<char>)> {
    noted(
        manifest.ambient_silence is None,
        QualitySeverity::Error,
        "缺少环境静音录音。"@,
    ) + missing_prompt_issues(manifest.fixed_prompts@, manifest.fixed_prompts@.len() as int)
        + noted(manifest.free_speech is None, QualitySeverity::Error, "缺少自由发挥录音。"@)
        + noted(
        record::present(manifest.fixed_prompts@).len() == manifest.fixed_prompts@.len()
            && manifest.free_speech is Some && totals.total_active_seconds.less(
            totals.minimum_active_seconds,
        ),
        QualitySeverity::Warning,
        "当前有效语音总时长仅 "@ + totals.total_text@ + " 秒，低于建议值 "@ + totals.minimum_text@
            + " 秒。"@,
    )
}

/// How many issues of this severity the reports have together.
pub open spec fn report_issue_count(
    reports: Seq<ClipQualityReport>,
    severity: QualitySeverity,
) -> nat
    decreases reports.len(),
{
    if reports.len() == 0 {
        0
    } else {
        report_issue_count(reports.drop_last(), severity) + issue_count(
            reports.last().issues@,
            severity,
        )
    }
}

/// Whether a report has an issue of this severity.
pub open spec fn reports_raise(
    reports: Seq<ClipQualityReport>,
    severity: QualitySeverity,
) -> bool {
    exists|i: int| 0 <= i < reports.len() && raises((#[trigger] reports[i]).issues@, severity)
}

proof fn lemma_reports_raise_push(
    reports: Seq<ClipQualityReport>,
    report: ClipQualityReport,
    s: QualitySeverity,
)
    ensures
        reports_raise(reports.push(report), s) == (reports_raise(reports, s) || raises(
            report.issues@,
            s,
        )),
{
    let more = reports.push(report);
    if reports_raise(reports, s) {
        let k = choose|k: int|
            0 <= k < reports.len() && raises((#[trigger] reports[k]).issues@, s);
        assert(raises(more[k].issues@, s));
    }
    if raises(report.issues@, s) {
        assert(raises(more[reports.len() as int].issues@, s));
    }
    if reports_raise(more, s) {
        let k = choose|k: int| 0 <= k < more.len() && raises((#[trigger] more[k]).issues@, s);
        if k < reports.len() {
            assert(raises(reports[k].issues@, s));
        }
    }
}

proof fn lemma_report_issue_count(reports: Seq<ClipQualityReport>, severity: QualitySeverity)
    ensures
        report_issue_count(reports, severity) > 0 <==> reports_raise(reports, severity),
    decreases reports.len(),
{
    if reports.len() > 0 {
        lemma_report_issue_count(reports.drop_last(), severity);
        lemma_issue_count(reports.last().issues@, severity);
        assert(reports =~= reports.drop_last().push(reports.last()));
        lemma_reports_raise_push(reports.drop_last(), reports.last(), severity);
    }
}

fn count_report_issues(reports: &Vec<ClipQualityReport>, severity: QualitySeverity) -> (r: usize)
    requires
        report_issue_count(reports@, severity) <= usize::MAX,
    ensures
        r == report_issue_count(reports@, severity),
{
    let mut count: usize = 0;
    let mut i: usize = 0;
    while i < reports.len()
        invariant
            i <= reports.len(),
            report_issue_count(reports@, severity) <= usize::MAX,
            count == report_issue_count(reports@.take(i as int), severity),
        decreases reports.len() - i,
    {
        assert(reports@.take(i + 1).drop_last() =~= reports@.take(i as int));
        proof {
            lemma_report_issue_count_prefix(reports@, severity, i + 1);
        }
        count = count + count_issues(&reports[i].issues, severity);
        i = i + 1;
    }
    assert(reports@.take(i as int) =~= reports@);
    count
}

proof fn lemma_report_issue_count_prefix(
    reports: Seq<ClipQualityReport>,
    severity: QualitySeverity,
    n: int,
)
    requires
        0 <= n <= reports.len(),
    ensures
        report_issue_count(reports.take(n), severity) <= report_issue_count(reports, severity),
    decreases reports.len() - n,
{
    if n == reports.len() {
        assert(reports.take(n) =~= reports);
    } else {
        assert(reports.take(n + 1).drop_last() =~= reports.take(n));
        lemma_report_issue_count_prefix(reports, severity, n + 1);
    }
}

impl QualityReport {
    /// Whether an issue of this severity stands anywhere in the report.
    pub open spec fn raises_any(self, severity: QualitySeverity) -> bool {
        raises(self.issues@, severity) || reports_raise(self.clip_reports@, severity)
    }

    /// The severity of the worst issue in the report.
    pub open spec fn spec_severity(self) -> QualitySeverity {
        if self.raises_any(QualitySeverity::Error) {
            QualitySeverity::Error
        } else if self.raises_any(QualitySeverity::Warning) {
            QualitySeverity::Warning
        } else {
            QualitySeverity::Passed
        }
    }

    /// How many issues of this severity stand in the report.
    pub open spec fn count(self, severity: QualitySeverity) -> nat {
        issue_count(self.issues@, severity) + report_issue_count(self.clip_reports@, severity)
    }

    /// Whether the issues can be counted.
    pub open spec fn is_countable(self) -> bool {
        self.count(QualitySeverity::Warning) <= usize::MAX && self.count(QualitySeverity::Error)
            <= usize::MAX
    }

    /// Judges the recordings of an enrollment, given what was measured of each, in
    /// the order and by the thresholds of `next_to_judge`, and of all speech. A
    /// recording that cannot be judged leaves the whole without a report.
    pub fn analyze_manifest(
        manifest: &TrainingRecordingManifest,
        measures: &Vec<Result<ClipMeasures, String>>,
        totals: &SpeechTotals,
    ) -> (r: Result<Self, AnalysisFailure>)
        requires
            manifest_is_numbered(*manifest),
            measured_as_planned(*manifest, measures@, totals.raised_ambient_dbfs),
        ensures
            ({
                let plan = to_judge(*manifest, totals.raised_ambient_dbfs);
                match r {
                    Ok(report) => {
                        &&& forall|i: int| 0 <= i < plan.len() ==> !fails_at(plan, measures@, i)
                        &&& report.expected_prompt_count == manifest.fixed_prompts@.len()
                        &&& report.recorded_prompt_count == record::present(
                            manifest.fixed_prompts@,
                        ).len()
                        &&& report.ambient_rms_dbfs == if manifest.ambient_silence is Some {
                            Some(measures@[0]->Ok_0.rms_dbfs)
                        } else {
                            None
                        }
                        &&& report.speech_activity_threshold_dbfs == activity_threshold(
                            totals.raised_ambient_dbfs,
                        )
                        &&& report.total_active_speech_seconds == totals.total_active_seconds
                        &&& report.clip_reports@.len() == plan.len()
                        &&& forall|i: int|
                            0 <= i < plan.len() ==> is_report_of(
                                #[trigger] report.clip_reports@[i],
                                plan[i].clip,
                                measures@[i]->Ok_0,
                            )
                        &&& issue_views(report.issues@) == manifest_issues(*manifest, *totals)
                    },
                    Err(failure) => first_fails(plan, measures@, failure),
                }
            }),
    {
        let expected_prompt_count = manifest.fixed_prompts.len();
        let plan = clips_to_judge(manifest, totals.raised_ambient_dbfs);
        proof {
            lemma_plan(*manifest, totals.raised_ambient_dbfs);
        }
        let clip_reports = match judge_clips(&plan, measures) {
            Ok(reports) => reports,
            Err(failure) => {
                return Err(failure);
            },
        };
        let recorded_prompt_count = manifest.recorded_prompt_count();
        let mut issues: Vec<QualityIssue> = Vec::new();
        let ghost m = *manifest;
        let ghost slots = manifest.fixed_prompts@;
        let ambient_rms_dbfs = if manifest.ambient_silence.is_some() {
            Some(clip_reports[0].rms_dbfs)
        } else {
            None
        };
        note(
            &mut issues,
            manifest.ambient_silence.is_none(),
            QualitySeverity::Error,
            "缺少环境静音录音。".to_owned(),
        );
        let ghost head = issue_views(issues@);
        assert(head =~= noted(
            m.ambient_silence is None,
            QualitySeverity::Error,
            "缺少环境静音录音。"@,
        ));
        let mut i: usize = 0;
        assert(head =~= head + missing_prompt_issues(slots, 0));
        while i < manifest.fixed_prompts.len()
            invariant
                i <= manifest.fixed_prompts.len(),
                slots == manifest.fixed_prompts@,
                issue_views(issues@) == head + missing_prompt_issues(slots, i as int),
            decreases manifest.fixed_prompts.len() - i,
        {
            let number = text::decimal_two_text(i as u64 + 1);
            note(
                &mut issues,
                manifest.fixed_prompts[i].is_none(),
                QualitySeverity::Error,
                text::joined3("缺少固定短句 ", number.as_str(), " 的录音。"),
            );
            i = i + 1;
            assert(issue_views(issues@) =~= head + missing_prompt_issues(slots, i as int));
        }
        note(
            &mut issues,
            manifest.free_speech.is_none(),
            QualitySeverity::Error,
            "缺少自由发挥录音。".to_owned(),
        );
        let mut short = text::joined3(
            "当前有效语音总时长仅 ",
            totals.total_text.as_str(),
            " 秒，低于建议值 ",
        );
        short.append(totals.minimum_text.as_str());
        short.append(" 秒。");
        note(
            &mut issues,
            recorded_prompt_count == expected_prompt_count && manifest.free_speech.is_some()
                && totals.total_active_seconds.lt(totals.minimum_active_seconds),
            QualitySeverity::Warning,
            short,
        );
        assert(issue_views(issues@) =~= manifest_issues(*manifest, *totals));
        Ok(
            QualityReport {
                expected_prompt_count,
                recorded_prompt_count,
                ambient_rms_dbfs,
                speech_activity_threshold_dbfs: speech_activity_threshold_from_ambient(
                    totals.raised_ambient_dbfs,
                ),
                total_active_speech_seconds: totals.total_active_seconds,
                clip_reports,
                issues,
            },
        )
    }

    /// The severity of the worst issue in the report.
    pub fn severity(&self) -> (r: QualitySeverity)
        ensures
            r == self.spec_severity(),
    {
        let mut worst = highest_issue_severity(&self.issues);
        let mut i: usize = 0;
        let ghost reports = self.clip_reports@;
        while i < self.clip_reports.len()
            invariant
                i <= self.clip_reports.len(),
                reports == self.clip_reports@,
                worst == (if raises(self.issues@, QualitySeverity::Error) || reports_raise(
                    reports.take(i as int),
                    QualitySeverity::Error,
                ) {
                    QualitySeverity::Error
                } else if raises(self.issues@, QualitySeverity::Warning) || reports_raise(
                    reports.take(i as int),
                    QualitySeverity::Warning,
                ) {
                    QualitySeverity::Warning
                } else {
                    QualitySeverity::Passed
                }),
            decreases self.clip_reports.len() - i,
        {
            worst = worst.worse(self.clip_reports[i].severity());
            proof {
                assert(reports.take(i + 1) =~= reports.take(i as int).push(reports[i as int]));
                lemma_reports_raise_push(
                    reports.take(i as int),
                    reports[i as int],
                    QualitySeverity::Error,
                );
                lemma_reports_raise_push(
                    reports.take(i as int),
                    reports[i as int],
                    QualitySeverity::Warning,
                );
            }
            i = i + 1;
        }
        assert(reports.take(i as int) =~= reports);
        worst
    }

    /// How many warnings stand in the report.
    pub fn warning_count(&self) -> (r: usize)
        requires
            self.is_countable(),
        ensures
            r == self.count(QualitySeverity::Warning),
    {
        count_issues(&self.issues, QualitySeverity::Warning) + count_report_issues(
            &self.clip_reports,
            QualitySeverity::Warning,
        )
    }

    /// How many errors stand in the report.
    pub fn error_count(&self) -> (r: usize)
        requires
            self.is_countable(),
        ensures
            r == self.count(QualitySeverity::Error),
    {
        count_issues(&self.issues, QualitySeverity::Error) + count_report_issues(
            &self.clip_reports,
            QualitySeverity::Error,
        )
    }
}

impl Default for QualityReport {
    fn default() -> (r: Self)
        ensures
            r.expected_prompt_count == 0,
            r.recorded_prompt_count == 0,
            r.ambient_rms_dbfs is None,
            r.speech_activity_threshold_dbfs.bits == 0,
            r.total_active_speech_seconds.bits == 0,
            r.clip_reports@.len() == 0,
            r.issues@.len() == 0,
    {
        QualityReport {
            expected_prompt_count: 0,
            recorded_prompt_count: 0,
            ambient_rms_dbfs: None,
            speech_activity_threshold_dbfs: Float32 { bits: 0 },
            total_active_speech_seconds: Float32 { bits: 0 },
            clip_reports: Vec::new(),
            issues: Vec::new(),
        }
    }
}

/// The grade of a report and its counts say the same: it is graded an error as
/// soon as it counts one, a warning where it counts warnings only, and passed
/// where it counts neither.
pub proof fn severity_agrees_with_counts(report: QualityReport)
    ensures
        report.spec_severity() == QualitySeverity::Error <==> report.count(QualitySeverity::Error)
            > 0,
        report.spec_severity() == QualitySeverity::Warning <==> report.count(
            QualitySeverity::Error,
        ) == 0 && report.count(QualitySeverity::Warning) > 0,
        report.spec_severity() == QualitySeverity::Passed <==> report.count(QualitySeverity::Error)
            == 0 && report.count(QualitySeverity::Warning) == 0,
{
    lemma_issue_count(report.issues@, QualitySeverity::Error);
    lemma_issue_count(report.issues@, QualitySeverity::Warning);
    lemma_report_issue_count(report.clip_reports@, QualitySeverity::Error);
    lemma_report_issue_count(report.clip_reports@, QualitySeverity::Warning);
}

/// As long as a take is missing, the recordings are graded an error.
pub proof fn missing_takes_are_errors(
    report: QualityReport,
    manifest: TrainingRecordingManifest,
    totals: SpeechTotals,
)
    requires
        issue_views(report.issues@) == manifest_issues(manifest, totals),
        !manifest.complete(),
    ensures
        report.spec_severity() == QualitySeverity::Error,
{
    let views = manifest_issues(manifest, totals);
    let slots = manifest.fixed_prompts@;
    let first = noted(
        manifest.ambient_silence is None,
        QualitySeverity::Error,
        "缺少环境静音录音。"@,
    );
    let second = missing_prompt_issues(slots, slots.len() as int);
    let k: int = if manifest.ambient_silence is None {
        0
    } else if manifest.free_speech is None {
        (first + second).len() as int
    } else {
        let gap = choose|i: int| 0 <= i < slots.len() && slots[i] is None;
        lemma_missing_prompt(slots, slots.len() as int, gap);
        let at = choose|at: int|
            0 <= at < second.len() && (#[trigger] second[at]).0 == QualitySeverity::Error;
        first.len() + at
    };
    if manifest.ambient_silence is Some && manifest.free_speech is Some {
        let at = k - first.len();
        assert(views[k] == second[at]);
    }
    assert(views[k].0 == QualitySeverity::Error);
    assert(0 <= k < views.len());
    assert(issue_views(report.issues@)[k] == report.issues@[k]@);
    assert(report.issues@[k].severity == QualitySeverity::Error);
}

proof fn lemma_missing_prompt(slots: Seq<Option<RecordedClip>>, n: int, gap: int)
    requires
        0 <= gap < n <= slots.len(),
        slots[gap] is None,
    ensures
        exists|at: int|
            0 <= at < missing_prompt_issues(slots, n).len() && (#[trigger] missing_prompt_issues(
                slots,
                n,
            )[at]).0 == QualitySeverity::Error,
    decreases n,
{
    let all = missing_prompt_issues(slots, n);
    let rest = missing_prompt_issues(slots, n - 1);
    if gap == n - 1 {
        assert(all[rest.len() as int].0 == QualitySeverity::Error);
    } else {
        lemma_missing_prompt(slots, n - 1, gap);
        let at = choose|at: int|
            0 <= at < rest.len() && (#[trigger] rest[at]).0 == QualitySeverity::Error;
        assert(all[at] == rest[at]);
    }
}

/// Every recording is judged, in the order of the enrollment: the ambient take first
/// and by the lowest threshold, all others by the one that follows from it.
pub proof fn recordings_are_judged_in_order(
    manifest: TrainingRecordingManifest,
    raised_ambient: Option<Float32>,
)
    requires
        manifest.fixed_prompts@.len() <= usize::MAX,
    ensures
        to_judge(manifest, raised_ambient).map_values(|item: ClipToJudge| item.clip)
            == manifest.clips(),
        forall|i: int|
            0 <= i < to_judge(manifest, raised_ambient).len() ==> {
                let item = #[trigger] to_judge(manifest, raised_ambient)[i];
                &&& manifest.slot(item.slot) == Some(item.clip)
                &&& item.slot is AmbientSilence <==> i == 0 && manifest.ambient_silence is Some
                &&& item.activity_threshold_dbfs == if item.slot is AmbientSilence {
                    (Float32 { bits: ACTIVITY_THRESHOLD_FLOOR_BITS })
                } else {
                    activity_threshold(raised_ambient)
                }
            },
{
    lemma_plan(manifest, raised_ambient);
    lemma_prompts_to_judge(manifest.fixed_prompts@, activity_threshold(raised_ambient));
    let plan = to_judge(manifest, raised_ambient);
    let prompts = prompts_to_judge(manifest.fixed_prompts@, activity_threshold(raised_ambient));
    let first = ambient_count(manifest);
    assert forall|i: int| 0 <= i < plan.len() implies {
        let item = #[trigger] plan[i];
        &&& manifest.slot(item.slot) == Some(item.clip)
        &&& item.slot is AmbientSilence <==> i == 0 && manifest.ambient_silence is Some
        &&& item.activity_threshold_dbfs == if item.slot is AmbientSilence {
            (Float32 { bits: ACTIVITY_THRESHOLD_FLOOR_BITS })
        } else {
            activity_threshold(raised_ambient)
        }
    } by {
        if first <= i < first + prompts.len() {
            assert(plan[i] == prompts[i - first]);
        }
    }
}

/// How many issues of this severity stand in a list.
spec fn view_count(views: Seq<(QualitySeverity, Seq<char>)>, severity: QualitySeverity) -> nat
    decreases views.len(),
{
    if views.len() == 0 {
        0
    } else {
        view_count(views.drop_last(), severity) + if views.last().0 == severity {
            1nat
        } else {
            0nat
        }
    }
}

proof fn lemma_view_count(issues: Seq<QualityIssue>, severity: QualitySeverity)
    ensures
        view_count(issue_views(issues), severity) == issue_count(issues, severity),
    decreases issues.len(),
{
    if issues.len() > 0 {
        lemma_view_count(issues.drop_last(), severity);
        assert(issue_views(issues).drop_last() =~= issue_views(issues.drop_last()));
    }
}

proof fn lemma_view_count_add(
    left: Seq<(QualitySeverity, Seq<char>)>,
    right: Seq<(QualitySeverity, Seq<char>)>,
    severity: QualitySeverity,
)
    ensures
        view_count(left + right, severity) == view_count(left, severity) + view_count(
            right,
            severity,
        ),
    decreases right.len(),
{
    if right.len() == 0 {
        assert(left + right =~= left);
    } else {
        lemma_view_count_add(left, right.drop_last(), severity);
        assert((left + right).drop_last() =~= left + right.drop_last());
    }
}

proof fn lemma_noted_count(
    holds: bool,
    severity: QualitySeverity,
    message: Seq<char>,
    counted: QualitySeverity,
)
    ensures
        view_count(noted(holds, severity, message), counted) == if holds && severity == counted {
            1nat
        } else {
            0nat
        },
{
    reveal_with_fuel(view_count, 2);
}

proof fn lemma_missing_prompt_count(slots: Seq<Option<RecordedClip>>, n: int)
    requires
        0 <= n <= slots.len(),
    ensures
        view_count(missing_prompt_issues(slots, n), QualitySeverity::Error) + record::present(
            slots.take(n),
        ).len() == n,
        view_count(missing_prompt_issues(slots, n), QualitySeverity::Warning) == 0,
    decreases n,
{
    if n > 0 {
        lemma_missing_prompt_count(slots, n - 1);
        let message = "缺少固定短句 "@ + text::decimal_two(n as nat) + " 的录音。"@;
        let one = noted(slots[n - 1] is None, QualitySeverity::Error, message);
        lemma_view_count_add(missing_prompt_issues(slots, n - 1), one, QualitySeverity::Error);
        lemma_view_count_add(missing_prompt_issues(slots, n - 1), one, QualitySeverity::Warning);
        lemma_noted_count(
            slots[n - 1] is None,
            QualitySeverity::Error,
            message,
            QualitySeverity::Error,
        );
        lemma_noted_count(
            slots[n - 1] is None,
            QualitySeverity::Error,
            message,
            QualitySeverity::Warning,
        );
        assert(slots.take(n).drop_last() =~= slots.take(n - 1));
    } else {
        assert(slots.take(0) =~= Seq::<Option<RecordedClip>>::empty());
    }
}

/// The recordings as a whole have one error for every take that is missing, and at
/// most one warning.
pub proof fn missing_takes_are_counted(
    report: QualityReport,
    manifest: TrainingRecordingManifest,
    totals: SpeechTotals,
)
    requires
        issue_views(report.issues@) == manifest_issues(manifest, totals),
    ensures
        issue_count(report.issues@, QualitySeverity::Error) + manifest.clips().len()
            == manifest.fixed_prompts@.len() + 2,
        issue_count(report.issues@, QualitySeverity::Warning) <= 1,
{
    let slots = manifest.fixed_prompts@;
    let ambient = noted(
        manifest.ambient_silence is None,
        QualitySeverity::Error,
        "缺少环境静音录音。"@,
    );
    let prompts = missing_prompt_issues(slots, slots.len() as int);
    let free = noted(
        manifest.free_speech is None,
        QualitySeverity::Error,
        "缺少自由发挥录音。"@,
    );
    let short_holds = record::present(slots).len() == slots.len() && manifest.free_speech is Some
        && totals.total_active_seconds.less(totals.minimum_active_seconds);
    let short_words = "当前有效语音总时长仅 "@ + totals.total_text@ + " 秒，低于建议值 "@
        + totals.minimum_text@ + " 秒。"@;
    let short = noted(short_holds, QualitySeverity::Warning, short_words);
    lemma_missing_prompt_count(slots, slots.len() as int);
    assert(slots.take(slots.len() as int) =~= slots);
    lemma_counts(ambient, prompts, free, short, QualitySeverity::Error);
    lemma_counts(ambient, prompts, free, short, QualitySeverity::Warning);
    lemma_view_count(report.issues@, QualitySeverity::Error);
    lemma_view_count(report.issues@, QualitySeverity::Warning);
    lemma_noted_count(
        manifest.ambient_silence is None,
        QualitySeverity::Error,
        "缺少环境静音录音。"@,
        QualitySeverity::Error,
    );
    lemma_noted_count(
        manifest.ambient_silence is None,
        QualitySeverity::Error,
        "缺少环境静音录音。"@,
        QualitySeverity::Warning,
    );
    lemma_noted_count(
        manifest.free_speech is None,
        QualitySeverity::Error,
        "缺少自由发挥录音。"@,
        QualitySeverity::Error,
    );
    lemma_noted_count(
        manifest.free_speech is None,
        QualitySeverity::Error,
        "缺少自由发挥录音。"@,
        QualitySeverity::Warning,
    );
    lemma_noted_count(short_holds, QualitySeverity::Warning, short_words, QualitySeverity::Error);
    lemma_noted_count(
        short_holds,
        QualitySeverity::Warning,
        short_words,
        QualitySeverity::Warning,
    );
}

proof fn lemma_counts(
    a: Seq<(QualitySeverity, Seq<char>)>,
    b: Seq<(QualitySeverity, Seq<char>)>,
    c: Seq<(QualitySeverity, Seq<char>)>,
    d: Seq<(QualitySeverity, Seq<char>)>,
    severity: QualitySeverity,
)
    ensures
        view_count(a + b + c + d, severity) == view_count(a, severity) + view_count(b, severity)
            + view_count(c, severity) + view_count(d, severity),
{
    lemma_view_count_add(a + b + c, d, severity);
    lemma_view_count_add(a + b, c, severity);
    lemma_view_count_add(a, b, severity);
}

/// The activity threshold stays between floor and ceiling, whatever the ambient
/// level.
pub proof fn activity_threshold_is_bounded(raised_ambient: Option<Float32>)
    requires
        raised_ambient matches Some(level) ==> !level.spec_is_nan(),
    ensures
        (Float32 { bits: ACTIVITY_THRESHOLD_FLOOR_BITS }).at_most(
            activity_threshold(raised_ambient),
        ),
        activity_threshold(raised_ambient).at_most(
            Float32 { bits: ACTIVITY_THRESHOLD_CEILING_BITS },
        ),
{
    let floor = Float32 { bits: ACTIVITY_THRESHOLD_FLOOR_BITS };
    let ceiling = Float32 { bits: ACTIVITY_THRESHOLD_CEILING_BITS };
    crate::util::float32::lemma_scaled_order(floor, ceiling);
}

proof fn lemma_issue_counts_of(
    issues: Seq<QualityIssue>,
    a: Seq<(QualitySeverity, Seq<char>)>,
    b: Seq<(QualitySeverity, Seq<char>)>,
    c: Seq<(QualitySeverity, Seq<char>)>,
    d: Seq<(QualitySeverity, Seq<char>)>,
    severity: QualitySeverity,
)
    requires
        issue_views(issues) == a + b + c + d,
    ensures
        issue_count(issues, severity) == view_count(a, severity) + view_count(b, severity)
            + view_count(c, severity) + view_count(d, severity),
{
    lemma_view_count(issues, severity);
    lemma_counts(a, b, c, d, severity);
}

/// How many a condition counts.
pub open spec fn one_if(holds: bool) -> nat {
    if holds {
        1
    } else {
        0
    }
}

proof fn lemma_noted_counts(holds: bool, severity: QualitySeverity, message: Seq<char>)
    ensures
        view_count(noted(holds, severity, message), QualitySeverity::Error) == one_if(
            holds && severity == QualitySeverity::Error,
        ),
        view_count(noted(holds, severity, message), QualitySeverity::Warning) == one_if(
            holds && severity == QualitySeverity::Warning,
        ),
{
    lemma_noted_count(holds, severity, message, QualitySeverity::Error);
    lemma_noted_count(holds, severity, message, QualitySeverity::Warning);
}

/// A prompt is an error as soon as it holds less than 0.35 seconds of speech, or no
/// stretch of it; however it sounds otherwise. With enough speech it is warned about where
/// it lasts less than 0.8 seconds or is softer than -32 dBFS, and passes in all other cases.
pub proof fn prompts_are_graded(report: ClipQualityReport, clip: RecordedClip, m: ClipMeasures)
    requires
        is_report_of(report, clip, m),
        clip.kind is FixedPrompt,
    ensures
        ({
            let short = clip.duration_seconds.less(Float32 { bits: 0x3F4C_CCCD });
            let lacking = report.active_seconds.less(Float32 { bits: 0x3EB3_3333 })
                || report.activity_segment_count == 0;
            let soft = report.rms_dbfs.less(Float32 { bits: 0xC200_0000 });
            &&& issue_count(report.issues@, QualitySeverity::Error) == one_if(lacking)
            &&& issue_count(report.issues@, QualitySeverity::Warning) == one_if(short) + one_if(
                soft && !lacking,
            )
            &&& highest(report.issues@) == QualitySeverity::Error <==> lacking
            &&& highest(report.issues@) == QualitySeverity::Warning <==> !lacking && (short || soft)
            &&& highest(report.issues@) == QualitySeverity::Passed <==> !lacking && !short && !soft
        }),
{
    let index = clip.kind->index;
    let number = text::decimal_two((index + 1) as nat);
    let a_words = "固定短句 "@ + number + " 总时长只有 "@ + m.duration_text@ + " 秒，可能录得过短。"@;
    let b_words = "固定短句 "@ + number + " 的有效语音不足（"@ + m.active_text_fine@
        + " 秒），建议重录。"@;
    let c_words = "固定短句 "@ + number + " 平均音量偏低（"@ + m.rms_text@ + " dBFS）。"@;
    let short = clip.duration_seconds.less(Float32 { bits: MIN_FIXED_PROMPT_DURATION_BITS });
    let lacking = prompt_lacks_speech(m);
    let soft = m.rms_dbfs.less(Float32 { bits: LOW_SPEECH_RMS_BITS });
    let a = noted(short, QualitySeverity::Warning, a_words);
    let b = noted(lacking, QualitySeverity::Error, b_words);
    let c = noted(!lacking && soft, QualitySeverity::Warning, c_words);
    let d = Seq::<(QualitySeverity, Seq<char>)>::empty();
    assert(a + b + c + d =~= a + b + c);
    lemma_issue_counts_of(report.issues@, a, b, c, d, QualitySeverity::Error);
    lemma_issue_counts_of(report.issues@, a, b, c, d, QualitySeverity::Warning);
    lemma_noted_counts(short, QualitySeverity::Warning, a_words);
    lemma_noted_counts(lacking, QualitySeverity::Error, b_words);
    lemma_noted_counts(!lacking && soft, QualitySeverity::Warning, c_words);
    lemma_issue_count(report.issues@, QualitySeverity::Error);
    lemma_issue_count(report.issues@, QualitySeverity::Warning);
}

/// An ambient take is an error where it lasts less than 4.5 seconds. It is warned about once
/// for a level above -40 dBFS, once for a peak above -6 dBFS, and once for activity: more
/// than 0.25 seconds of it, or a stretch of any length.
pub proof fn ambient_takes_are_graded(
    report: ClipQualityReport,
    clip: RecordedClip,
    m: ClipMeasures,
)
    requires
        is_report_of(report, clip, m),
        clip.kind is AmbientSilence,
    ensures
        ({
            let short = clip.duration_seconds.less(Float32 { bits: 0x4090_0000 });
            let loud = (Float32 { bits: 0xC220_0000 }).less(report.rms_dbfs);
            let peaked = (Float32 { bits: 0xC0C0_0000 }).less(m.peak_dbfs);
            let lively = (Float32 { bits: 0x3E80_0000 }).less(report.active_seconds)
                || report.activity_segment_count > 0;
            &&& issue_count(report.issues@, QualitySeverity::Error) == one_if(short)
            &&& issue_count(report.issues@, QualitySeverity::Warning) == one_if(loud) + one_if(
                peaked,
            ) + one_if(lively)
            &&& highest(report.issues@) == QualitySeverity::Error <==> short
            &&& highest(report.issues@) == QualitySeverity::Passed <==> !short && !loud && !peaked
                && !lively
        }),
{
    let a_words = "环境静音录音只有 "@ + m.duration_text@ + " 秒，短于要求的 5 秒。"@;
    let b_words = "环境静音平均电平偏高（"@ + m.rms_text@ + " dBFS），背景噪声可能较大。"@;
    let c_words = "环境静音里出现了明显瞬态峰值（"@ + m.peak_text@
        + " dBFS），请确认录制时没有说话或碰到麦克风。"@;
    let d_words = "环境静音中检测到约 "@ + m.active_text@
        + " 秒的明显活动声，建议重录以获得更稳定的噪声基线。"@;
    let short = clip.duration_seconds.less(Float32 { bits: MIN_AMBIENT_DURATION_BITS });
    let loud = (Float32 { bits: HIGH_AMBIENT_RMS_BITS }).less(m.rms_dbfs);
    let peaked = (Float32 { bits: HIGH_AMBIENT_PEAK_BITS }).less(m.peak_dbfs);
    let lively = (Float32 { bits: AMBIENT_ACTIVITY_LIMIT_BITS }).less(m.active_seconds)
        || m.activity_segment_count > 0;
    let a = noted(short, QualitySeverity::Error, a_words);
    let b = noted(loud, QualitySeverity::Warning, b_words);
    let c = noted(peaked, QualitySeverity::Warning, c_words);
    let d = noted(lively, QualitySeverity::Warning, d_words);
    lemma_issue_counts_of(report.issues@, a, b, c, d, QualitySeverity::Error);
    lemma_issue_counts_of(report.issues@, a, b, c, d, QualitySeverity::Warning);
    lemma_noted_counts(short, QualitySeverity::Error, a_words);
    lemma_noted_counts(loud, QualitySeverity::Warning, b_words);
    lemma_noted_counts(peaked, QualitySeverity::Warning, c_words);
    lemma_noted_counts(lively, QualitySeverity::Warning, d_words);
    lemma_issue_count(report.issues@, QualitySeverity::Error);
    lemma_issue_count(report.issues@, QualitySeverity::Warning);
}

/// Free speech is an error once for lasting less than 24 seconds and once for holding less
/// than 12 seconds of speech. It is warned about where it has fewer than four stretches of
/// speech, and where it holds enough speech but is softer than -32 dBFS.
pub proof fn free_speech_is_graded(
    report: ClipQualityReport,
    clip: RecordedClip,
    m: ClipMeasures,
)
    requires
        is_report_of(report, clip, m),
        clip.kind is FreeSpeech,
    ensures
        ({
            let short = clip.duration_seconds.less(Float32 { bits: 0x41C0_0000 });
            let lacking = report.active_seconds.less(Float32 { bits: 0x4140_0000 });
            let few = report.activity_segment_count < 4;
            let soft = report.rms_dbfs.less(Float32 { bits: 0xC200_0000 });
            &&& issue_count(report.issues@, QualitySeverity::Error) == one_if(short) + one_if(
                lacking,
            )
            &&& issue_count(report.issues@, QualitySeverity::Warning) == one_if(few) + one_if(
                soft && !lacking,
            )
            &&& highest(report.issues@) == QualitySeverity::Error <==> short || lacking
            &&& highest(report.issues@) == QualitySeverity::Passed <==> !short && !lacking && !few
                && !soft
        }),
{
    let a_words = "自由发挥录音只有 "@ + m.duration_text@ + " 秒，低于建议的 30 秒。"@;
    let b_words = "自由发挥有效语音只有 "@ + m.active_text@ + " 秒，明显不足，建议重录。"@;
    let c_words = "自由发挥检测到的语音片段数量较少（"@ + text::decimal(
        m.activity_segment_count as nat,
    ) + " 段），语速/停顿覆盖可能不够。"@;
    let d_words = "自由发挥平均音量偏低（"@ + m.rms_text@ + " dBFS）。"@;
    let short = clip.duration_seconds.less(Float32 { bits: MIN_FREE_SPEECH_DURATION_BITS });
    let lacking = free_speech_lacks_speech(m);
    let few = m.activity_segment_count < MIN_FREE_SPEECH_SEGMENTS;
    let soft = m.rms_dbfs.less(Float32 { bits: LOW_SPEECH_RMS_BITS });
    let a = noted(short, QualitySeverity::Error, a_words);
    let b = noted(lacking, QualitySeverity::Error, b_words);
    let c = noted(few, QualitySeverity::Warning, c_words);
    let d = noted(!lacking && soft, QualitySeverity::Warning, d_words);
    lemma_issue_counts_of(report.issues@, a, b, c, d, QualitySeverity::Error);
    lemma_issue_counts_of(report.issues@, a, b, c, d, QualitySeverity::Warning);
    lemma_noted_counts(short, QualitySeverity::Error, a_words);
    lemma_noted_counts(lacking, QualitySeverity::Error, b_words);
    lemma_noted_counts(few, QualitySeverity::Warning, c_words);
    lemma_noted_counts(!lacking && soft, QualitySeverity::Warning, d_words);
    lemma_issue_count(report.issues@, QualitySeverity::Error);
    lemma_issue_count(report.issues@, QualitySeverity::Warning);
}

/// The worst issue decides: no issue is worse than the grade, and a grade other than passed
/// is that of an issue.
pub proof fn grade_is_the_worst_issue(issues: Seq<QualityIssue>, i: int)
    requires
        0 <= i < issues.len(),
    ensures
        issues[i].severity == QualitySeverity::Error ==> highest(issues) == QualitySeverity::Error,
        issues[i].severity == QualitySeverity::Warning ==> highest(issues)
            != QualitySeverity::Passed,
        highest(issues) != QualitySeverity::Passed ==> exists|k: int|
            0 <= k < issues.len() && (#[trigger] issues[k]).severity == highest(issues),
{
    if issues[i].severity == QualitySeverity::Error {
        assert(raises(issues, QualitySeverity::Error));
    }
    if issues[i].severity == QualitySeverity::Warning {
        assert(raises(issues, QualitySeverity::Warning));
    }
    if raises(issues, QualitySeverity::Error) {
        let k = choose|k: int|
            0 <= k < issues.len() && (#[trigger] issues[k]).severity == QualitySeverity::Error;
        assert(issues[k].severity == highest(issues));
    } else if raises(issues, QualitySeverity::Warning) {
        let k = choose|k: int|
            0 <= k < issues.len() && (#[trigger] issues[k]).severity == QualitySeverity::Warning;
        assert(issues[k].severity == highest(issues));
    }
}

/// One issue more adds one to the count of its severity and nothing to the others.
pub proof fn issues_are_counted(
    issues: Seq<QualityIssue>,
    issue: QualityIssue,
    severity: QualitySeverity,
)
    ensures
        issue_count(Seq::<QualityIssue>::empty(), severity) == 0,
        issue_count(issues.push(issue), severity) - issue_count(issues, severity)
            == if issue.severity == severity {
            1int
        } else {
            0int
        },
{
    assert(issues.push(issue).drop_last() =~= issues);
}

/// A report counts the issues of the whole and of every recording.
pub proof fn recordings_add_to_the_count(
    before: QualityReport,
    after: QualityReport,
    clip_report: ClipQualityReport,
    severity: QualitySeverity,
)
    requires
        after.issues@ == before.issues@,
        after.clip_reports@ == before.clip_reports@.push(clip_report),
    ensures
        after.count(severity) == before.count(severity) + issue_count(
            clip_report.issues@,
            severity,
        ),
{
    assert(after.clip_reports@.drop_last() =~= before.clip_reports@);
}

/// The recordings as a whole are warned about exactly where all prompts and the free speech
/// are there and hold less speech together than they should.
pub proof fn too_little_speech_is_warned_about(
    report: QualityReport,
    manifest: TrainingRecordingManifest,
    totals: SpeechTotals,
)
    requires
        issue_views(report.issues@) == manifest_issues(manifest, totals),
    ensures
        raises(report.issues@, QualitySeverity::Warning) <==> (manifest.free_speech is Some && (
        forall|i: int|
            0 <= i < manifest.fixed_prompts@.len() ==> (#[trigger] manifest.fixed_prompts@[i]) is Some)
            && totals.total_active_seconds.less(totals.minimum_active_seconds)),
        raises(report.issues@, QualitySeverity::Error) <==> !manifest.complete(),
{
    let slots = manifest.fixed_prompts@;
    let a_words = "缺少环境静音录音。"@;
    let c_words = "缺少自由发挥录音。"@;
    let d_words = "当前有效语音总时长仅 "@ + totals.total_text@ + " 秒，低于建议值 "@
        + totals.minimum_text@ + " 秒。"@;
    let d_holds = record::present(slots).len() == slots.len() && manifest.free_speech is Some
        && totals.total_active_seconds.less(totals.minimum_active_seconds);
    let a = noted(manifest.ambient_silence is None, QualitySeverity::Error, a_words);
    let b = missing_prompt_issues(slots, slots.len() as int);
    let c = noted(manifest.free_speech is None, QualitySeverity::Error, c_words);
    let d = noted(d_holds, QualitySeverity::Warning, d_words);
    lemma_issue_counts_of(report.issues@, a, b, c, d, QualitySeverity::Error);
    lemma_issue_counts_of(report.issues@, a, b, c, d, QualitySeverity::Warning);
    lemma_noted_counts(manifest.ambient_silence is None, QualitySeverity::Error, a_words);
    lemma_noted_counts(manifest.free_speech is None, QualitySeverity::Error, c_words);
    lemma_noted_counts(d_holds, QualitySeverity::Warning, d_words);
    lemma_missing_prompt_count(slots, slots.len() as int);
    assert(slots.take(slots.len() as int) =~= slots);
    record::lemma_present_bound(slots);
    lemma_issue_count(report.issues@, QualitySeverity::Error);
    lemma_issue_count(report.issues@, QualitySeverity::Warning);
}

/// One frame more adds its samples where its level reaches the threshold, and a stretch
/// where the frame before does not; other frames add nothing.
pub proof fn activity_is_counted_by_frames(
    sample_count: int,
    sample_rate_hz: u32,
    threshold: Float32,
    levels: Seq<Float32>,
    n: int,
)
    requires
        0 <= n < levels.len(),
        !threshold.spec_is_nan(),
        !levels[n].spec_is_nan(),
        n > 0 ==> !levels[n - 1].spec_is_nan(),
    ensures
        active_samples(sample_count, sample_rate_hz, threshold, levels, 0) == 0,
        segment_count(threshold, levels, 0) == 0,
        active_samples(sample_count, sample_rate_hz, threshold, levels, n + 1) - active_samples(
            sample_count,
            sample_rate_hz,
            threshold,
            levels,
            n,
        ) == if levels[n].less(threshold) {
            0
        } else {
            activity_frame_len(sample_count, sample_rate_hz, n)
        },
        segment_count(threshold, levels, n + 1) - segment_count(threshold, levels, n)
            == if !levels[n].less(threshold) && (n == 0 || levels[n - 1].less(threshold)) {
            1int
        } else {
            0int
        },
{
}

/// Frames last a fiftieth of a second, or one sample at least; they stand side by side and
/// the last one ends with the recording.
pub proof fn activity_frames_tile_the_recording(sample_count: int, sample_rate_hz: u32, i: int)
    requires
        sample_count > 0,
        0 <= i < activity_frame_count(sample_count, sample_rate_hz),
    ensures
        activity_frame(sample_rate_hz) >= 1,
        sample_rate_hz >= 50 ==> activity_frame(sample_rate_hz) * 50 <= sample_rate_hz < (
        activity_frame(sample_rate_hz) + 1) * 50,
        0 < activity_frame_len(sample_count, sample_rate_hz, i) <= activity_frame(sample_rate_hz),
        i + 1 < activity_frame_count(sample_count, sample_rate_hz) ==> activity_frame_len(
            sample_count,
            sample_rate_hz,
            i,
        ) == activity_frame(sample_rate_hz),
        i + 1 == activity_frame_count(sample_count, sample_rate_hz) ==> i * activity_frame(
            sample_rate_hz,
        ) + activity_frame_len(sample_count, sample_rate_hz, i) == sample_count,
{
    let size = activity_frame(sample_rate_hz);
    lemma_frame_starts_inside(sample_count, sample_rate_hz, i);
    assert((i + 1) * size == i * size + size) by (nonlinear_arith);
    if i + 1 < activity_frame_count(sample_count, sample_rate_hz) {
        lemma_frame_starts_inside(sample_count, sample_rate_hz, i + 1);
    } else {
        let total = sample_count + size - 1;
        lemma_fundamental_div_mod(total, size);
        lemma_mod_bound(total, size);
        let q = total / size;
        assert(size * q == q * size) by (nonlinear_arith);
        assert(q == i + 1);
    }
}

/// The peak is no less than the magnitude of any sample, and is that of one, or 0.
pub proof fn peak_bounds_samples(samples: Seq<Float32>, i: int)
    requires
        0 <= i < samples.len(),
        forall|k: int| 0 <= k < samples.len() ==> !(#[trigger] samples[k]).spec_is_nan(),
    ensures
        samples[i].spec_abs().at_most(peak_magnitude(samples)),
        peak_magnitude(samples).bits == 0 || exists|k: int|
            0 <= k < samples.len() && peak_magnitude(samples) == (#[trigger] samples[k]).spec_abs(),
    decreases samples.len(),
{
    let rest = samples.drop_last();
    assert forall|k: int| 0 <= k < rest.len() implies !(#[trigger] rest[k]).spec_is_nan() by {
        assert(rest[k] == samples[k]);
    }
    let last = samples[samples.len() - 1];
    assert(last == samples.last());
    assert(!last.spec_abs().spec_is_nan());
    if rest.len() > 0 {
        let j = if i < rest.len() {
            i
        } else {
            0
        };
        peak_bounds_samples(rest, j);
        if peak_magnitude(rest).bits != 0 {
            let k = choose|k: int|
                0 <= k < rest.len() && peak_magnitude(rest) == (#[trigger] rest[k]).spec_abs();
            assert(samples[k] == rest[k]);
        }
    } else {
        assert(peak_magnitude(rest).bits == 0);
    }
}

/// A raised ambient level between -42 and -24 dBFS is the activity threshold as it is; without
/// an ambient take it is -42; and a louder room never lowers it.
pub proof fn activity_threshold_follows_ambient(a: Float32, b: Float32)
    requires
        a.at_most(b),
    ensures
        activity_threshold(Some(a)).at_most(activity_threshold(Some(b))),
        (Float32 { bits: 0xC228_0000 }).at_most(a) && a.at_most(Float32 { bits: 0xC1C0_0000 })
            ==> activity_threshold(Some(a)) == a,
        a.less(Float32 { bits: 0xC228_0000 }) ==> activity_threshold(Some(a)).bits == 0xC228_0000,
        (Float32 { bits: 0xC1C0_0000 }).less(a) ==> activity_threshold(Some(a)).bits
            == 0xC1C0_0000,
        activity_threshold(None).bits == 0xC228_0000,
{
    crate::util::float32::lemma_scaled_order(
        Float32 { bits: 0xC228_0000 },
        Float32 { bits: 0xC1C0_0000 },
    );
}

/// Where every recording was measured, the seconds that count are those of all recordings
/// but the ambient take, in order.
pub proof fn all_speech_is_summed(
    manifest: TrainingRecordingManifest,
    measures: Seq<Result<ClipMeasures, String>>,
)
    requires
        outcomes::all_succeed(measures),
        measures.len() >= ambient_count(manifest),
    ensures
        counted_seconds(measures, ambient_count(manifest), measures.len() as int)
            == outcomes::gains(measures).skip(
            if manifest.ambient_silence is Some {
                1
            } else {
                0
            },
        ).map_values(|m: ClipMeasures| m.active_seconds),
{
    lemma_counted_seconds(measures, ambient_count(manifest), measures.len() as int);
    assert(measures.take(measures.len() as int) =~= measures);
}

proof fn lemma_counted_seconds(
    measures: Seq<Result<ClipMeasures, String>>,
    skipped: int,
    n: int,
)
    requires
        outcomes::all_succeed(measures),
        0 <= skipped <= n <= measures.len(),
    ensures
        counted_seconds(measures, skipped, n) == outcomes::gains(measures.take(n)).skip(
            skipped,
        ).map_values(|m: ClipMeasures| m.active_seconds),
    decreases n,
{
    if n > skipped {
        lemma_counted_seconds(measures, skipped, n - 1);
        assert(measures[n - 1] is Ok);
    }
    assert(counted_seconds(measures, skipped, n) =~= outcomes::gains(measures.take(n)).skip(
        skipped,
    ).map_values(|m: ClipMeasures| m.active_seconds));
}

/// Every recording has a report of its own, in order: report and recording agree in kind,
/// place, duration and sample rate.
pub proof fn reports_stand_for_recordings(
    report: QualityReport,
    manifest: TrainingRecordingManifest,
    measures: Seq<Result<ClipMeasures, String>>,
    raised_ambient: Option<Float32>,
    i: int,
)
    requires
        manifest.fixed_prompts@.len() <= usize::MAX,
        0 <= i < manifest.clips().len(),
        is_report_of(
            report.clip_reports@[i],
            to_judge(manifest, raised_ambient)[i].clip,
            measures[i]->Ok_0,
        ),
    ensures
        report.clip_reports@[i].kind == manifest.clips()[i].kind,
        report.clip_reports@[i].relative_path@ == manifest.clips()[i].relative_path@,
        report.clip_reports@[i].duration_seconds == manifest.clips()[i].duration_seconds,
        report.clip_reports@[i].sample_rate_hz == manifest.clips()[i].sample_rate_hz,
        report.clip_reports@[i].rms_dbfs == measures[i]->Ok_0.rms_dbfs,
        report.clip_reports@[i].active_seconds == measures[i]->Ok_0.active_seconds,
        report.clip_reports@[i].activity_segment_count == measures[i]->Ok_0.activity_segment_count,
{
    recordings_are_judged_in_order(manifest, raised_ambient);
    let plan = to_judge(manifest, raised_ambient);
    assert(plan.map_values(|item: ClipToJudge| item.clip)[i] == plan[i].clip);
}

/// Only one recording can be the first that fails, so the failure is settled.
pub proof fn first_failure_is_unique(
    plan: Seq<ClipToJudge>,
    measures: Seq<Result<ClipMeasures, String>>,
    a: AnalysisFailure,
    b: AnalysisFailure,
)
    requires
        first_fails(plan, measures, a),
        first_fails(plan, measures, b),
    ensures
        a.context@ == b.context@,
        a.detail@ == b.detail@,
{
    let i = choose|i: int| #[trigger] first_fails_at(plan, measures, a, i);
    let j = choose|j: int| #[trigger] first_fails_at(plan, measures, b, j);
    if i < j {
        assert(!fails_at(plan, measures, i));
    }
    if j < i {
        assert(!fails_at(plan, measures, j));
    }
}

/// The worse of two severities is one of them; whatever takes part, an error stays one, and only
/// two passes pass.
pub proof fn worse_keeps_the_worst(a: QualitySeverity, b: QualitySeverity)
    ensures
        a.spec_worse(b) == a || a.spec_worse(b) == b,
        a.spec_worse(b) == b.spec_worse(a),
        a == QualitySeverity::Error ==> a.spec_worse(b) == QualitySeverity::Error,
        a.spec_worse(b) == QualitySeverity::Passed <==> a == QualitySeverity::Passed && b
            == QualitySeverity::Passed,
{
}

/// The failure that is told is that of a recording that could not be measured or has no sample
/// rate, while all recordings before it were measured and have one; it is told with the words of
/// the measuring and the path of the recording.
pub proof fn failure_is_that_of_the_first_bad_recording(
    plan: Seq<ClipToJudge>,
    measures: Seq<Result<ClipMeasures, String>>,
    failure: AnalysisFailure,
)
    requires
        first_fails(plan, measures, failure),
    ensures
        exists|i: int|
            {
                &&& 0 <= i < measures.len()
                &&& (#[trigger] measures[i]) is Err || plan[i].clip.sample_rate_hz == 0
                &&& forall|k: int|
                    0 <= k < i ==> (#[trigger] measures[k]) is Ok && plan[k].clip.sample_rate_hz > 0
                &&& measures[i] matches Err(detail) ==> failure.detail@ == detail@
                &&& failure.context@.len() >= plan[i].clip.relative_path@.len()
                &&& failure.context@.skip(
                    failure.context@.len() - plan[i].clip.relative_path@.len(),
                ) == plan[i].clip.relative_path@
            },
{
    let i = choose|i: int| #[trigger] first_fails_at(plan, measures, failure, i);
    let path = plan[i].clip.relative_path@;
    assert forall|k: int| 0 <= k < i implies (#[trigger] measures[k]) is Ok
        && plan[k].clip.sample_rate_hz > 0 by {
        assert(!fails_at(plan, measures, k));
    }
    assert(failure.context@.skip(failure.context@.len() - path.len()) =~= path);
    assert(measures[i] is Err || plan[i].clip.sample_rate_hz == 0);
}

/// The ambient take is judged by the lowest threshold, every other recording by the one that
/// follows from the ambient level.
pub proof fn recordings_are_judged_by_the_room(
    manifest: TrainingRecordingManifest,
    raised_ambient: Option<Float32>,
    i: int,
)
    requires
        manifest.fixed_prompts@.len() <= usize::MAX,
        0 <= i < to_judge(manifest, raised_ambient).len(),
    ensures
        ({
            let item = to_judge(manifest, raised_ambient)[i];
            &&& item.slot is AmbientSilence <==> i == 0 && manifest.ambient_silence is Some
            &&& item.slot is AmbientSilence ==> item.activity_threshold_dbfs.bits == 0xC228_0000
            &&& !(item.slot is AmbientSilence) ==> item.activity_threshold_dbfs
                == activity_threshold(raised_ambient)
            &&& item.slot matches RecordingTakeKind::FixedPrompt { index } ==> index
                < manifest.fixed_prompts@.len() && manifest.fixed_prompts@[index as int] == Some(
                item.clip,
            )
            &&& item.slot is FreeSpeech ==> manifest.free_speech == Some(item.clip)
        }),
{
    lemma_prompts_to_judge(manifest.fixed_prompts@, activity_threshold(raised_ambient));
}

/// Exactly the prompts that are not recorded are named as missing, each by its number.
pub proof fn missing_prompts_are_named(slots: Seq<Option<RecordedClip>>, n: int)
    requires
        0 <= n < slots.len(),
    ensures
        missing_prompt_issues(slots, 0).len() == 0,
        slots[n] is Some ==> missing_prompt_issues(slots, n + 1) == missing_prompt_issues(slots, n),
        slots[n] is None ==> missing_prompt_issues(slots, n + 1) == missing_prompt_issues(
            slots,
            n,
        ).push(
            (
                QualitySeverity::Error,
                "缺少固定短句 "@ + text::decimal_two((n + 1) as nat) + " 的录音。"@,
            ),
        ),
{
    if slots[n] is None {
        assert(missing_prompt_issues(slots, n + 1) =~= missing_prompt_issues(slots, n).push(
            (
                QualitySeverity::Error,
                "缺少固定短句 "@ + text::decimal_two((n + 1) as nat) + " 的录音。"@,
            ),
        ));
    } else {
        assert(missing_prompt_issues(slots, n + 1) =~= missing_prompt_issues(slots, n));
    }
}

/// Something is raised by a report exactly where one of its issues, or one of a recording's, has
/// the severity.
pub proof fn reports_raise_what_recordings_raise(report: QualityReport, severity: QualitySeverity)
    ensures
        report.raises_any(severity) <==> (exists|k: int|
            0 <= k < report.issues@.len() && (#[trigger] report.issues@[k]).severity == severity)
            || (exists|i: int, k: int|
            #![trigger report.clip_reports@[i].issues@[k]]
            0 <= i < report.clip_reports@.len() && 0 <= k < report.clip_reports@[i].issues@.len()
                && report.clip_reports@[i].issues@[k].severity == severity),
{
    if exists|i: int, k: int|
        #![trigger report.clip_reports@[i].issues@[k]]
        0 <= i < report.clip_reports@.len() && 0 <= k < report.clip_reports@[i].issues@.len()
            && report.clip_reports@[i].issues@[k].severity == severity {
        let (i, k) = choose|i: int, k: int|
            #![trigger report.clip_reports@[i].issues@[k]]
            0 <= i < report.clip_reports@.len() && 0 <= k < report.clip_reports@[i].issues@.len()
                && report.clip_reports@[i].issues@[k].severity == severity;
        assert(raises(report.clip_reports@[i].issues@, severity));
        assert(reports_raise(report.clip_reports@, severity));
    }
    if reports_raise(report.clip_reports@, severity) {
        let i = choose|i: int|
            0 <= i < report.clip_reports@.len() && raises(
                (#[trigger] report.clip_reports@[i]).issues@,
                severity,
            );
        let issues = report.clip_reports@[i].issues@;
        let k = choose|k: int| 0 <= k < issues.len() && (#[trigger] issues[k]).severity == severity;
        assert(report.clip_reports@[i].issues@[k].severity == severity);
    }
}

/// A failed prompt is told by its number, counted from one.
pub proof fn failed_prompts_are_told_by_number(index: usize, path: Seq<char>)
    ensures
        analysis_words(RecordingTakeKind::FixedPrompt { index }, path)
            == "failed to analyze fixed prompt recording "@ + text::decimal_two((index + 1) as nat)
            + ": "@ + path,
        analysis_words(RecordingTakeKind::AmbientSilence, path)
            == "failed to analyze ambient recording: "@ + path,
        analysis_words(RecordingTakeKind::FreeSpeech, path)
            == "failed to analyze free speech recording: "@ + path,
{
}

} // verus!
