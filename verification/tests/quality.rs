use ek_single_mic::ml::speaker::{AggregatedSpeakerProfile, SpeakerEmbedding};
use ek_single_mic::profile::builder::{BuildError, SpeakerProfileBuilder};
use ek_single_mic::profile::quality::{
    ClipMeasures, ClipQualityReport, QualityIssue, QualityReport, QualitySeverity, SpeechTotals,
    activity_frame_size, analysis_context, analyze_activity, analyze_clip, analyze_samples,
    highest_issue_severity, next_to_judge, peak_linear, speech_activity_threshold_from_ambient,
    speech_seconds,
};
use ek_single_mic::profile::record::{
    EnrollmentScript, RecordedClip, RecordingTakeKind, TrainingRecordingManifest,
};
use ek_single_mic::profile::storage::{
    SpeakerProfile, SpeakerProfileStore, default_quality_severity,
    default_speech_activity_threshold_dbfs,
};
use ek_single_mic::util::float32::Float32;

fn number(value: f32) -> Float32 {
    Float32 { bits: value.to_bits() }
}

fn value(held: Float32) -> f32 {
    f32::from_bits(held.bits)
}

fn rms(samples: &[f32]) -> f32 {
    if samples.is_empty() {
        return 0.0;
    }
    (samples.iter().map(|sample| sample * sample).sum::<f32>() / samples.len() as f32).sqrt()
}

fn dbfs(linear: f32) -> f32 {
    20.0 * linear.abs().max(f32::EPSILON).log10()
}

fn measure(clip: &RecordedClip, samples: &[f32], threshold: f32) -> ClipMeasures {
    let held: Vec<Float32> = samples.iter().map(|sample| number(*sample)).collect();
    let levels: Vec<Float32> = samples
        .chunks(activity_frame_size(clip.sample_rate_hz))
        .map(|frame| number(dbfs(rms(frame))))
        .collect();
    let activity =
        analyze_activity(samples.len(), clip.sample_rate_hz, number(threshold), &levels);
    let rms_dbfs = dbfs(rms(samples));
    let peak_dbfs = dbfs(value(peak_linear(&held)));
    let active_seconds = activity.active_sample_count as f32 / clip.sample_rate_hz as f32;
    ClipMeasures {
        activity_threshold_dbfs: number(threshold),
        rms_dbfs: number(rms_dbfs),
        peak_dbfs: number(peak_dbfs),
        active_seconds: number(active_seconds),
        active_ratio: number(activity.active_sample_count as f32 / samples.len() as f32),
        activity_segment_count: activity.activity_segment_count,
        duration_text: format!("{:.1}", value(clip.duration_seconds)),
        rms_text: format!("{rms_dbfs:.1}"),
        peak_text: format!("{peak_dbfs:.1}"),
        active_text: format!("{active_seconds:.1}"),
        active_text_fine: format!("{active_seconds:.2}"),
    }
}

fn judge(clip: &RecordedClip, samples: &[f32], threshold: f32) -> ClipQualityReport {
    analyze_samples(clip, &measure(clip, samples, threshold))
}

fn test_clip(kind: RecordingTakeKind, relative_path: &str, duration_seconds: f32) -> RecordedClip {
    RecordedClip {
        kind,
        label: kind.label(),
        relative_path: relative_path.to_owned(),
        duration_seconds: number(duration_seconds),
        sample_rate_hz: 16_000,
        sample_count: (duration_seconds * 16_000.0) as usize,
        peak_linear: number(0.2),
    }
}

fn alternating_speech_samples(
    sample_rate_hz: u32,
    duration_seconds: f32,
    amplitude: f32,
) -> Vec<f32> {
    let frame_size = ((sample_rate_hz as usize) / 10).max(1);
    let total_samples = (sample_rate_hz as f32 * duration_seconds) as usize;
    let mut samples = Vec::with_capacity(total_samples);
    let mut speech_frame = true;

    while samples.len() < total_samples {
        let remaining = total_samples - samples.len();
        let fill_len = remaining.min(frame_size);
        let level = if speech_frame { amplitude } else { 0.0 };
        samples.extend(std::iter::repeat_n(level, fill_len));
        speech_frame = !speech_frame;
    }

    samples
}

fn no_totals() -> SpeechTotals {
    SpeechTotals {
        raised_ambient_dbfs: None,
        total_active_seconds: number(0.0),
        minimum_active_seconds: number(12.7),
        total_text: "0.0".to_owned(),
        minimum_text: "12.7".to_owned(),
    }
}

#[test]
fn quiet_complete_manifest_passes_basic_quality_check() {
    let mut manifest = TrainingRecordingManifest::new(2);
    manifest.register(test_clip(RecordingTakeKind::AmbientSilence, "ambient.wav", 5.0));
    manifest.register(test_clip(
        RecordingTakeKind::FixedPrompt { index: 0 },
        "prompt01.wav",
        1.2,
    ));
    manifest.register(test_clip(
        RecordingTakeKind::FixedPrompt { index: 1 },
        "prompt02.wav",
        1.3,
    ));
    manifest.register(test_clip(RecordingTakeKind::FreeSpeech, "free.wav", 30.0));

    let ambient = judge(
        manifest.ambient_silence.as_ref().unwrap(),
        &vec![0.0; 16_000 * 5],
        -42.0,
    );
    assert_eq!(ambient.severity(), QualitySeverity::Passed);

    let prompt = judge(
        manifest.fixed_prompts[0].as_ref().unwrap(),
        &alternating_speech_samples(16_000, 1.2, 0.08),
        -35.0,
    );
    assert_eq!(prompt.severity(), QualitySeverity::Passed);

    let free = judge(
        manifest.free_speech.as_ref().unwrap(),
        &alternating_speech_samples(16_000, 30.0, 0.08),
        -35.0,
    );
    assert_eq!(free.severity(), QualitySeverity::Passed);
}

#[test]
fn low_activity_prompt_is_flagged_as_error() {
    let clip = test_clip(
        RecordingTakeKind::FixedPrompt { index: 0 },
        "prompt.wav",
        1.0,
    );
    let report = judge(&clip, &vec![0.0; 16_000], -35.0);

    assert_eq!(report.severity(), QualitySeverity::Error);
    assert!(report
        .issues
        .iter()
        .any(|issue| issue.message.contains("有效语音不足")));
    assert!(!report
        .issues
        .iter()
        .any(|issue| issue.message.contains("平均音量偏低")));
}

#[test]
fn loud_prompt_does_not_warn_about_high_level_or_clipping() {
    let clip = test_clip(
        RecordingTakeKind::FixedPrompt { index: 0 },
        "prompt.wav",
        1.0,
    );
    let report = judge(&clip, &alternating_speech_samples(16_000, 1.0, 0.7), -35.0);

    assert!(!report
        .issues
        .iter()
        .any(|issue| issue.message.contains("平均音量偏高")));
    assert!(!report
        .issues
        .iter()
        .any(|issue| issue.message.contains("爆音风险")));
}

#[test]
fn missing_required_recordings_raise_report_errors() {
    let manifest = TrainingRecordingManifest::new(2);
    let report = QualityReport::analyze_manifest(&manifest, &Vec::new(), &no_totals())
        .expect("quality analysis should succeed");

    assert_eq!(report.severity(), QualitySeverity::Error);
    assert!(report.error_count() >= 4);
    assert_eq!(report.recorded_prompt_count, 0);
    assert_eq!(report.expected_prompt_count, 2);
    let messages: Vec<&str> = report.issues.iter().map(|issue| issue.message.as_str()).collect();
    assert_eq!(
        messages,
        vec![
            "缺少环境静音录音。",
            "缺少固定短句 01 的录音。",
            "缺少固定短句 02 的录音。",
            "缺少自由发挥录音。",
        ]
    );
}

fn numbers_of(rms_dbfs: f32, active_seconds: f32, threshold: f32) -> ClipMeasures {
    ClipMeasures {
        activity_threshold_dbfs: number(threshold),
        rms_dbfs: number(rms_dbfs),
        peak_dbfs: number(rms_dbfs),
        active_seconds: number(active_seconds),
        active_ratio: number(0.1),
        activity_segment_count: if active_seconds > 0.0 { 4 } else { 0 },
        duration_text: "30.0".to_owned(),
        rms_text: format!("{rms_dbfs:.1}"),
        peak_text: format!("{rms_dbfs:.1}"),
        active_text: format!("{active_seconds:.1}"),
        active_text_fine: format!("{active_seconds:.2}"),
    }
}

fn one_prompt_manifest() -> TrainingRecordingManifest {
    let mut manifest = TrainingRecordingManifest::new(1);
    manifest.register(test_clip(RecordingTakeKind::AmbientSilence, "a.wav", 30.0));
    manifest.register(test_clip(RecordingTakeKind::FixedPrompt { index: 0 }, "p.wav", 30.0));
    manifest.register(test_clip(RecordingTakeKind::FreeSpeech, "f.wav", 30.0));
    manifest
}

#[test]
fn too_little_speech_in_complete_recordings_is_a_warning() {
    let manifest = one_prompt_manifest();
    let mut measures = Vec::new();
    let mut raised = None;
    let mut asked = Vec::new();
    while let Some(next) = next_to_judge(&manifest, raised, measures.len()) {
        let threshold = value(next.activity_threshold_dbfs);
        if next.slot == RecordingTakeKind::AmbientSilence {
            measures.push(Ok(numbers_of(-45.0, 0.0, threshold)));
            raised = Some(number(-35.0));
        } else {
            measures.push(Ok(numbers_of(-20.0, 6.0 + asked.len() as f32, threshold)));
        }
        asked.push((next.slot, next.clip.relative_path.clone(), threshold));
    }
    assert_eq!(
        asked,
        vec![
            (RecordingTakeKind::AmbientSilence, "a.wav".to_owned(), -42.0),
            (RecordingTakeKind::FixedPrompt { index: 0 }, "p.wav".to_owned(), -35.0),
            (RecordingTakeKind::FreeSpeech, "f.wav".to_owned(), -35.0),
        ]
    );
    let seconds = speech_seconds(&manifest, &measures);
    assert_eq!(seconds, vec![number(7.0), number(8.0)]);
    let totals = SpeechTotals {
        raised_ambient_dbfs: raised,
        total_active_seconds: number(15.0),
        minimum_active_seconds: number(15.5),
        total_text: "15.0".to_owned(),
        minimum_text: "15.5".to_owned(),
    };
    let report = QualityReport::analyze_manifest(&manifest, &measures, &totals)
        .expect("quality analysis should succeed");
    let kinds: Vec<RecordingTakeKind> =
        report.clip_reports.iter().map(|report| report.kind).collect();
    assert_eq!(
        kinds,
        vec![
            RecordingTakeKind::AmbientSilence,
            RecordingTakeKind::FixedPrompt { index: 0 },
            RecordingTakeKind::FreeSpeech,
        ]
    );
    assert_eq!(report.issues.len(), 1);
    assert_eq!(report.issues[0].severity, QualitySeverity::Warning);
    assert_eq!(
        report.issues[0].message,
        "当前有效语音总时长仅 15.0 秒，低于建议值 15.5 秒。"
    );
    assert_eq!(report.total_active_speech_seconds, number(15.0));
    assert_eq!(report.ambient_rms_dbfs, Some(number(-45.0)));
    assert_eq!(report.speech_activity_threshold_dbfs, number(-35.0));
}

#[test]
fn one_recording_that_cannot_be_judged_fails_the_whole() {
    let mut manifest = one_prompt_manifest();
    let totals = |raised: Option<f32>| SpeechTotals {
        raised_ambient_dbfs: raised.map(number),
        ..no_totals()
    };
    let unread = QualityReport::analyze_manifest(
        &manifest,
        &vec![Err("no such file".to_owned())],
        &totals(None),
    )
    .expect_err("the ambient take was not read");
    assert_eq!(unread.context, "failed to analyze ambient recording: a.wav");
    assert_eq!(unread.detail, "no such file");

    let measures = vec![
        Ok(numbers_of(-60.0, 0.0, -42.0)),
        Ok(numbers_of(-20.0, 6.0, -42.0)),
        Err("not mono".to_owned()),
    ];
    let late = QualityReport::analyze_manifest(&manifest, &measures, &totals(Some(-50.0)))
        .expect_err("the free speech was not read");
    assert_eq!(late.context, "failed to analyze free speech recording: f.wav");
    assert_eq!(late.detail, "not mono");

    manifest.fixed_prompts[0].as_mut().unwrap().sample_rate_hz = 0;
    let rateless = QualityReport::analyze_manifest(&manifest, &measures, &totals(Some(-50.0)))
        .expect_err("the prompt has no sample rate");
    assert_eq!(rateless.context, "failed to analyze fixed prompt recording 01: p.wav");
    assert_eq!(rateless.detail, "clip sample rate must be positive for p.wav");
}

#[test]
fn loud_ambient_takes_raise_every_issue() {
    let clip = test_clip(RecordingTakeKind::AmbientSilence, "a.wav", 1.0);
    let report = judge(&clip, &vec![0.9; 16_000], -42.0);
    let messages: Vec<&str> = report.issues.iter().map(|issue| issue.message.as_str()).collect();
    assert_eq!(
        messages,
        vec![
            "环境静音录音只有 1.0 秒，短于要求的 5 秒。",
            "环境静音平均电平偏高（-0.9 dBFS），背景噪声可能较大。",
            "环境静音里出现了明显瞬态峰值（-0.9 dBFS），请确认录制时没有说话或碰到麦克风。",
            "环境静音中检测到约 1.0 秒的明显活动声，建议重录以获得更稳定的噪声基线。",
        ]
    );
    assert_eq!(report.severity(), QualitySeverity::Error);
}

#[test]
fn short_soft_prompts_are_warned_about() {
    let clip = test_clip(RecordingTakeKind::FixedPrompt { index: 11 }, "p.wav", 0.5);
    let report = judge(&clip, &vec![0.01; 8_000], -45.0);
    let messages: Vec<&str> = report.issues.iter().map(|issue| issue.message.as_str()).collect();
    assert_eq!(
        messages,
        vec![
            "固定短句 12 总时长只有 0.5 秒，可能录得过短。",
            "固定短句 12 平均音量偏低（-40.0 dBFS）。",
        ]
    );
}

#[test]
fn silent_free_speech_is_an_error() {
    let clip = test_clip(RecordingTakeKind::FreeSpeech, "f.wav", 2.0);
    let report = judge(&clip, &vec![0.0; 32_000], -42.0);
    let messages: Vec<&str> = report.issues.iter().map(|issue| issue.message.as_str()).collect();
    assert_eq!(
        messages,
        vec![
            "自由发挥录音只有 2.0 秒，低于建议的 30 秒。",
            "自由发挥有效语音只有 0.0 秒，明显不足，建议重录。",
            "自由发挥检测到的语音片段数量较少（0 段），语速/停顿覆盖可能不够。",
        ]
    );
}

#[test]
fn activity_is_counted_in_samples_and_stretches() {
    let levels: Vec<Float32> =
        [-10.0, -10.0, -90.0, -10.0, -90.0, -42.0].iter().map(|level| number(*level)).collect();
    let activity = analyze_activity(1_700, 16_000, number(-42.0), &levels);
    assert_eq!(activity.active_sample_count, 320 * 3 + 100);
    assert_eq!(activity.activity_segment_count, 3);
    assert_eq!(activity_frame_size(49), 1);
    let none = analyze_activity(0, 16_000, number(-42.0), &Vec::new());
    assert_eq!(none.active_sample_count, 0);
}

#[test]
fn the_activity_threshold_stays_in_its_range() {
    assert_eq!(speech_activity_threshold_from_ambient(None), number(-42.0));
    assert_eq!(speech_activity_threshold_from_ambient(Some(number(-90.0))), number(-42.0));
    assert_eq!(speech_activity_threshold_from_ambient(Some(number(-30.0))), number(-30.0));
    assert_eq!(speech_activity_threshold_from_ambient(Some(number(-3.0))), number(-24.0));
}

#[test]
fn clips_without_a_sample_rate_are_not_judged() {
    let mut clip = test_clip(RecordingTakeKind::FreeSpeech, "f.wav", 2.0);
    let measures = measure(&clip, &vec![0.0; 32_000], -42.0);
    clip.sample_rate_hz = 0;
    assert_eq!(
        analyze_clip(&clip, &measures).err().as_deref(),
        Some("clip sample rate must be positive for f.wav")
    );
    assert_eq!(
        analysis_context(RecordingTakeKind::FixedPrompt { index: 2 }, "p.wav"),
        "failed to analyze fixed prompt recording 03: p.wav"
    );
    assert_eq!(
        analysis_context(RecordingTakeKind::AmbientSilence, "a.wav"),
        "failed to analyze ambient recording: a.wav"
    );
}

#[test]
fn the_worst_issue_decides() {
    let warning = QualityIssue::warning("w".to_owned());
    let error = QualityIssue::error("e".to_owned());
    assert_eq!(highest_issue_severity(&Vec::new()), QualitySeverity::Passed);
    assert_eq!(highest_issue_severity(&vec![warning.clone()]), QualitySeverity::Warning);
    assert_eq!(highest_issue_severity(&vec![error, warning]), QualitySeverity::Error);
    assert_eq!(QualitySeverity::Passed.label(), "通过");
    assert_eq!(QualitySeverity::Warning.label(), "警告");
    assert_eq!(QualitySeverity::Error.label(), "错误");
}

fn voice() -> AggregatedSpeakerProfile {
    AggregatedSpeakerProfile {
        model_version: "heuristic-speaker-embedding-v0",
        embeddings: vec![
            SpeakerEmbedding {
                kind: RecordingTakeKind::FreeSpeech,
                vector: vec![number(0.5); 8],
                active_frame_count: 7,
            };
            3
        ],
        centroid: vec![number(0.5); 8],
        dispersion: number(0.01),
        suggested_threshold: number(0.9),
    }
}

#[test]
fn builder_rejects_incomplete_manifest() {
    let script = EnrollmentScript {
        locale: "zh-CN",
        prompts: vec!["一句".to_owned()],
    };
    let manifest = TrainingRecordingManifest::new(script.prompts.len());
    let report = QualityReport {
        expected_prompt_count: 1,
        recorded_prompt_count: 0,
        ambient_rms_dbfs: None,
        speech_activity_threshold_dbfs: number(-42.0),
        total_active_speech_seconds: number(0.0),
        clip_reports: Vec::new(),
        issues: Vec::new(),
    };

    let error = SpeakerProfileBuilder::build_default(
        &manifest,
        &report,
        &script,
        voice(),
        String::new(),
    )
    .expect_err("builder should reject missing recordings");
    assert!(error.message().contains("ambient silence"));
}

#[test]
fn builder_names_what_is_missing() {
    let script = EnrollmentScript { locale: "zh-CN", prompts: vec!["一句".to_owned()] };
    let mut manifest = TrainingRecordingManifest::new(2);
    assert_eq!(
        SpeakerProfileBuilder::check(&manifest, &script).err(),
        Some(BuildError::PromptCountMismatch)
    );
    manifest = TrainingRecordingManifest::new(1);
    manifest.register(test_clip(RecordingTakeKind::AmbientSilence, "a.wav", 5.0));
    assert_eq!(
        SpeakerProfileBuilder::check(&manifest, &script).err(),
        Some(BuildError::NoFreeSpeech)
    );
    manifest.register(test_clip(RecordingTakeKind::FreeSpeech, "f.wav", 5.0));
    assert_eq!(
        SpeakerProfileBuilder::check(&manifest, &script).err(),
        Some(BuildError::PromptsMissing)
    );
    manifest.register(test_clip(RecordingTakeKind::FixedPrompt { index: 0 }, "p.wav", 5.0));
    assert!(SpeakerProfileBuilder::check(&manifest, &script).is_ok());
}

#[test]
fn profile_summaries_show_the_profile() {
    let profile = SpeakerProfile {
        profile_id: "default".to_owned(),
        created_at_utc: "2026-03-12T12:00:00Z".to_owned(),
        model_version: "metadata-only-registration-v0".to_owned(),
        embedding_count: 0,
        embedding_dimension: None,
        centroid: Vec::new(),
        dispersion: None,
        suggested_threshold: number(0.0),
        prompt_locale: "zh-CN".to_owned(),
        prompt_count: 10,
        free_speech_seconds: Some(30),
        raw_audio_path: None,
        cleaned_audio_path: None,
        speech_activity_threshold_dbfs: number(-39.5),
        quality_severity: "警告".to_owned(),
        quality_warning_count: 2,
        quality_error_count: 1,
        source_recordings: Vec::new(),
    };
    let store = SpeakerProfileStore::new();
    assert_eq!(store.root(), "profiles");
    assert_eq!(store.default_profile_path(), "profiles/default/speaker_profile.json");
    assert_eq!(SpeakerProfileStore::new_in("/tmp/p/").default_profile_dir(), "/tmp/p/default");
    assert!(store.load_default_profile_summary(None).is_none());
    let summary = store.load_default_profile_summary(Some(&profile)).expect("summary");
    assert!(summary.is_metadata_only());
    assert_eq!(summary.quality_warning_count, 2);
    assert_eq!(summary.quality_severity, "警告");
    assert_eq!(
        summary.label(),
        "default | 2026-03-12T12:00:00Z | 10 条提示词 | 0 个 embedding"
    );
    assert_eq!(default_quality_severity(), "未知");
    assert_eq!(default_speech_activity_threshold_dbfs(), number(-42.0));
}
