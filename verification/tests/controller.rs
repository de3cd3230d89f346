use ek_single_mic::app::controller::{AppController, prefer_detected_virtual_cable_output};
use ek_single_mic::app::startup::{ProfileLookup, inspect_startup_recording_prompt};
use ek_single_mic::app::state::{
    AppState, StartupRecordingPrompt, StartupRecordingPromptSeverity,
};
use ek_single_mic::app::training::TrainingStep;
use ek_single_mic::audio::devices::{DeviceInventory, VirtualCableRoute};
use ek_single_mic::config::settings::{AppSettings, InferenceMode, UiPage};
use ek_single_mic::pipeline::filter::OfflineBasicFilterMetrics;
use ek_single_mic::pipeline::realtime::{
    RuntimeFormatSummary, RuntimeMetricsSnapshot, RuntimeStage,
};
use ek_single_mic::profile::quality::QualityReport;
use ek_single_mic::profile::record::{
    EnrollmentScript, RecordedClip, RecordingTakeKind, TrainingRecordingManifest,
};
use ek_single_mic::profile::scan::{
    DetectedTrainingRecordings, expected_recording_entries, source_recordings_from_manifest,
};
use ek_single_mic::profile::storage::{ProfileSummary, SpeakerProfile};
use ek_single_mic::util::float32::Float32;

fn number(value: f32) -> Float32 {
    Float32 { bits: value.to_bits() }
}

fn controller() -> AppController {
    AppController::new(AppState::new(
        AppSettings::default(),
        String::new(),
        DeviceInventory::default(),
        None,
        EnrollmentScript { locale: "zh-CN", prompts: vec!["一".to_owned(), "二".to_owned()] },
        None,
        None,
        None,
    ))
}

fn format() -> RuntimeFormatSummary {
    RuntimeFormatSummary {
        input_device_name: "Mic".to_owned(),
        output_device_name: "Speaker".to_owned(),
        sample_rate_hz: 48_000,
        input_channels: 1,
        output_channels: 2,
        input_sample_format: "f32".to_owned(),
        output_sample_format: "i16".to_owned(),
    }
}

fn clip(kind: RecordingTakeKind) -> RecordedClip {
    RecordedClip {
        kind,
        label: kind.label(),
        relative_path: format!("profiles/default/recordings/{}", kind.file_name()),
        duration_seconds: number(1.0),
        sample_rate_hz: 16_000,
        sample_count: 16_000,
        peak_linear: number(0.5),
    }
}

fn complete_manifest() -> TrainingRecordingManifest {
    let mut manifest = TrainingRecordingManifest::new(2);
    manifest.register(clip(RecordingTakeKind::AmbientSilence));
    manifest.register(clip(RecordingTakeKind::FixedPrompt { index: 0 }));
    manifest.register(clip(RecordingTakeKind::FixedPrompt { index: 1 }));
    manifest.register(clip(RecordingTakeKind::FreeSpeech));
    manifest
}

fn cable() -> DeviceInventory {
    let mut inventory = DeviceInventory::default();
    inventory.virtual_cable_route = Some(VirtualCableRoute {
        driver_name: "VB-CABLE",
        playback_device_name: "CABLE Input".to_owned(),
        recording_device_name: "CABLE Output".to_owned(),
    });
    inventory
}

#[test]
fn a_detected_cable_becomes_the_output() {
    let mut settings = AppSettings::default();
    prefer_detected_virtual_cable_output(&mut settings, &DeviceInventory::default());
    assert_eq!(settings.selected_output_device, None);
    prefer_detected_virtual_cable_output(&mut settings, &cable());
    assert_eq!(settings.selected_output_device.as_deref(), Some("CABLE Input"));

    let mut app = controller();
    app.use_detected_virtual_cable_output();
    assert_eq!(app.state.settings.selected_output_device, None);
    app.devices_refreshed(cable(), Some("坏".to_owned()));
    assert_eq!(app.state.last_device_error.as_deref(), Some("坏"));
    assert_eq!(app.state.settings.selected_output_device.as_deref(), Some("CABLE Input"));
    app.state.settings.selected_output_device = None;
    app.use_detected_virtual_cable_output();
    assert_eq!(app.state.settings.selected_output_device.as_deref(), Some("CABLE Input"));
}

#[test]
fn settings_that_were_not_kept_are_reported() {
    let mut app = controller();
    app.settings_persisted(Some("磁盘已满".to_owned()));
    assert_eq!(app.state.last_persist_error.as_deref(), Some("磁盘已满"));
    app.settings_persisted(None);
    assert_eq!(app.state.last_persist_error, None);
}

#[test]
fn the_microphone_has_one_user_at_a_time() {
    let mut app = controller();
    assert_eq!(app.start_realtime(false), Some(RuntimeStage::RunningPassthrough));
    app.realtime_started(
        RuntimeStage::RunningPassthrough,
        format(),
        RuntimeMetricsSnapshot::default(),
    );
    assert_eq!(app.state.runtime_stage, RuntimeStage::RunningPassthrough);
    app.state.training_step = TrainingStep::AmbientSilence;
    assert_eq!(app.start_training_recording_for_current_step(), None);
    assert_eq!(
        app.state.last_training_recording_error.as_deref(),
        Some("训练录音开始前请先停止设备页中的 Passthrough。")
    );
    assert!(app.start_preview_recording(RecordingTakeKind::FreeSpeech).is_none());
    assert_eq!(
        app.state.last_training_preview_error.as_deref(),
        Some("预览录音前请先停止设备页中的 Passthrough。")
    );

    app.stop_passthrough();
    assert_eq!(app.state.runtime_stage, RuntimeStage::Stopped);
    assert!(app.state.runtime_format.is_none());
    assert_eq!(
        app.start_training_recording_for_current_step(),
        Some(RecordingTakeKind::AmbientSilence)
    );
    app.training_recording_started();
    assert!(app.state.training_recording_active);
    assert_eq!(app.state.last_training_recording_error, None);
    assert_eq!(app.start_training_recording_for_current_step(), None);
    assert_eq!(app.start_realtime(true), None);
    assert_eq!(
        app.state.last_runtime_error.as_deref(),
        Some("训练录音正在占用麦克风，请先完成或退出当前训练录音步骤。")
    );
    assert!(app.start_preview_recording(RecordingTakeKind::FreeSpeech).is_none());
    assert_eq!(
        app.state.last_training_preview_error.as_deref(),
        Some("当前正在录音，暂时不能预览录音片段。")
    );
}

#[test]
fn a_runtime_that_does_not_start_is_reported() {
    let mut app = controller();
    assert!(app.start_passthrough());
    app.realtime_failed("没有设备".to_owned());
    assert_eq!(app.state.runtime_stage, RuntimeStage::Stopped);
    assert_eq!(app.state.last_runtime_error.as_deref(), Some("没有设备"));
    app.sync_runtime_state(None);
    assert!(app.state.runtime_format.is_none());
}

#[test]
fn the_link_runs_in_the_chosen_mode() {
    let mut app = controller();
    app.state.settings.inference_mode = InferenceMode::BasicFilter;
    let stage = app.start_realtime(true).expect("a profile is there");
    assert_eq!(stage, RuntimeStage::RunningBasicFilter);
    assert_eq!(app.state.runtime_stage, RuntimeStage::Stopped);
    app.realtime_started(stage, format(), RuntimeMetricsSnapshot::default());
    assert_eq!(app.state.runtime_stage, RuntimeStage::RunningBasicFilter);
    assert!(app.state.runtime_format.is_some());
    assert_eq!(app.state.last_runtime_error, None);
    let mut metrics = RuntimeMetricsSnapshot::default();
    metrics.processed_output_chunks = 3;
    app.sync_runtime_state(Some((metrics, format())));
    assert_eq!(app.state.runtime_stage, RuntimeStage::RunningBasicFilter);
    assert_eq!(app.state.runtime_metrics, metrics);

    app.state.settings.inference_mode = InferenceMode::Passthrough;
    assert_eq!(app.start_realtime(true), Some(RuntimeStage::RunningPassthrough));
    assert!(!app.runtime_running);
}

#[test]
fn a_mode_that_cannot_run_is_explained() {
    let mut app = controller();
    app.state.settings.inference_mode = InferenceMode::BasicFilter;
    assert_eq!(app.start_realtime(false), None);
    assert_eq!(app.state.runtime_stage, RuntimeStage::Stopped);
    assert_eq!(
        app.state.last_runtime_error.as_deref(),
        Some("Basic Filter 启动前需要先加载默认 speaker profile")
    );
    app.state.settings.inference_mode = InferenceMode::StrongIsolation;
    assert_eq!(app.start_realtime(true), None);
    assert_eq!(
        app.state.last_runtime_error.as_deref(),
        Some("Strong Isolation 仍是预留模式，当前尚未接入实时链路")
    );
}

#[test]
fn a_finished_recording_is_kept() {
    let mut app = controller();
    app.state.training_step = TrainingStep::AmbientSilence;
    app.start_training_recording_for_current_step();
    app.training_recording_started();
    app.sync_training_recording_feedback(Some(number(0.5)));
    assert_eq!(app.state.training_input_level_linear, number(0.5));
    assert!(app.step_is_recording());
    app.finish_current_training_recording(Some(Ok(clip(RecordingTakeKind::AmbientSilence))));
    app.advance_training_step();
    assert_eq!(app.state.training_step, TrainingStep::FixedPromptPreparation { index: 0 });
    assert!(app.state.training_recordings.ambient_silence.is_some());
    assert!(!app.recording && !app.state.training_recording_active);
    assert!(!app.quality_check_due());
}

#[test]
fn a_recording_that_failed_is_reported() {
    let mut app = controller();
    app.state.training_step = TrainingStep::AmbientSilence;
    app.start_training_recording_for_current_step();
    app.training_recording_failed("没有麦克风".to_owned());
    assert_eq!(app.state.last_training_recording_error.as_deref(), Some("没有麦克风"));
    app.start_training_recording_for_current_step();
    app.training_recording_started();
    app.finish_current_training_recording(Some(Err("写入失败".to_owned())));
    assert_eq!(app.state.last_training_recording_error.as_deref(), Some("写入失败"));
    assert!(app.state.training_recordings.ambient_silence.is_none());
    app.recording_removal_failed("a.wav", "busy");
    assert_eq!(
        app.state.last_training_recording_error.as_deref(),
        Some("failed to remove discarded recording a.wav: busy")
    );
}

#[test]
fn going_back_gives_up_the_later_takes() {
    let mut app = controller();
    app.state.training_recordings = complete_manifest();
    app.state.training_step = TrainingStep::FreeSpeech;
    app.start_training_recording_for_current_step();
    app.training_recording_started();
    app.discard_current_training_recording(Some(Err("忙".to_owned())));
    assert_eq!(app.state.last_training_recording_error.as_deref(), Some("忙"));
    let removed = app.retry_previous_prompt();
    let kinds: Vec<RecordingTakeKind> = removed.iter().map(|clip| clip.kind).collect();
    assert_eq!(
        kinds,
        vec![RecordingTakeKind::FixedPrompt { index: 1 }, RecordingTakeKind::FreeSpeech]
    );
    assert_eq!(app.state.training_step, TrainingStep::FixedPromptPreparation { index: 1 });
    assert!(app.state.training_recordings.ambient_silence.is_some());
    assert!(app.state.training_recordings.fixed_prompts[0].is_some());
}

#[test]
fn starting_over_gives_up_every_take() {
    let mut app = controller();
    app.state.training_recordings = complete_manifest();
    app.state.training_step = TrainingStep::Review;
    app.discard_current_training_recording(None);
    assert_eq!(app.give_up_recordings().len(), 4);
    app.restart_training_flow();
    assert_eq!(app.state.training_step, TrainingStep::Preparation);
    assert_eq!(app.state.training_recordings.recorded_clip_count(), 0);
}

#[test]
fn clips_can_be_heard_again() {
    let mut app = controller();
    assert!(app.start_preview_recording(RecordingTakeKind::FreeSpeech).is_none());
    assert_eq!(
        app.state.last_training_preview_error.as_deref(),
        Some("当前录音片段还不存在，无法预览。")
    );
    app.state.training_recordings = complete_manifest();
    let heard = app.start_preview_recording(RecordingTakeKind::FreeSpeech).expect("a clip");
    assert_eq!(heard.relative_path, "profiles/default/recordings/free_speech.wav");
    app.preview_started(RecordingTakeKind::FreeSpeech);
    assert_eq!(app.state.previewing_recording_kind, Some(RecordingTakeKind::FreeSpeech));
    assert_eq!(app.state.last_training_preview_error, None);
    app.sync_training_preview_state(false);
    assert!(app.previewing);
    app.sync_training_preview_state(true);
    assert!(!app.previewing);
    assert_eq!(app.state.previewing_recording_kind, None);
    app.preview_failed("坏".to_owned());
    assert_eq!(app.state.last_training_preview_error.as_deref(), Some("坏"));
}

#[test]
fn quality_is_checked_on_the_review_only() {
    let mut app = controller();
    app.state.training_quality_report = Some(QualityReport::default());
    assert!(!app.quality_check_due());
    assert!(app.state.training_quality_report.is_none());
    app.state.training_step = TrainingStep::Review;
    assert!(app.quality_check_due());
    app.quality_checked(Err("坏".to_owned()));
    assert_eq!(app.state.last_training_quality_error.as_deref(), Some("坏"));
    app.quality_checked(Ok(QualityReport::default()));
    assert!(app.state.training_quality_report.is_some());
    assert_eq!(app.state.last_training_quality_error, None);
    app.profile_refresh_failed("坏".to_owned());
    assert_eq!(app.state.last_profile_error.as_deref(), Some("坏"));
    app.profile_refreshed(
        Some(ProfileSummary {
            profile_id: "default".to_owned(),
            created_at_utc: String::new(),
            model_version: String::new(),
            embedding_count: 1,
            suggested_threshold: number(0.9),
            prompt_count: 2,
            quality_severity: "通过".to_owned(),
            quality_warning_count: 0,
            quality_error_count: 0,
        }),
        None,
    );
    assert_eq!(app.state.last_profile_error, None);
    assert!(app.state.default_profile_summary.is_some());
}

#[test]
fn a_review_take_is_recorded_again() {
    let mut app = controller();
    app.state.training_step = TrainingStep::Review;
    app.start_review_rerecord(RecordingTakeKind::FreeSpeech);
    assert_eq!(
        app.state.training_step,
        TrainingStep::ReviewRerecordPreparation { kind: RecordingTakeKind::FreeSpeech }
    );
    assert_eq!(app.start_training_recording_for_current_step(), None);
    app.advance_training_step();
    assert_eq!(
        app.start_training_recording_for_current_step(),
        Some(RecordingTakeKind::FreeSpeech)
    );
}

#[test]
fn earlier_recordings_are_loaded_or_overwritten() {
    let mut app = controller();
    assert!(!app.load_detected_training_recordings());
    let prompt = || StartupRecordingPrompt {
        severity: StartupRecordingPromptSeverity::Info,
        title: String::new(),
        summary: String::new(),
        details: Vec::new(),
        detected_recordings: DetectedTrainingRecordings {
            manifest: complete_manifest(),
            missing_paths: Vec::new(),
            unexpected_entries: Vec::new(),
            invalid_entries: Vec::new(),
        },
    };
    app.state.startup_recording_prompt = Some(prompt());
    assert!(app.load_detected_training_recordings());
    assert!(app.state.training_recordings.is_complete());
    assert_eq!(app.state.training_step, TrainingStep::Review);
    assert!(app.state.startup_recording_prompt.is_none());

    app.state.startup_recording_prompt = Some(prompt());
    app.overwrite_failed("坏".to_owned());
    assert_eq!(app.state.last_training_recording_error.as_deref(), Some("坏"));
    assert!(app.state.startup_recording_prompt.is_some());
    app.overwrite_completed();
    assert!(app.state.startup_recording_prompt.is_none());
    assert_eq!(app.state.settings.selected_page, UiPage::Training);
}

#[test]
fn the_offline_filter_needs_two_paths() {
    let mut app = controller();
    app.state.offline_basic_filter_input_path = "  ".to_owned();
    assert_eq!(app.run_offline_basic_filter(), None);
    assert_eq!(
        app.state.last_offline_basic_filter_error.as_deref(),
        Some("离线输入 WAV 路径和输出 WAV 路径都不能为空。")
    );
    app.state.offline_basic_filter_input_path = " A\\b.wav".to_owned();
    app.state.offline_basic_filter_output_path = "a/B.WAV ".to_owned();
    assert_eq!(app.run_offline_basic_filter(), None);
    assert_eq!(
        app.state.last_offline_basic_filter_error.as_deref(),
        Some("离线输入 WAV 路径和输出 WAV 路径不能相同。")
    );
    app.state.offline_basic_filter_output_path = " out.wav ".to_owned();
    assert_eq!(
        app.run_offline_basic_filter(),
        Some(("A\\b.wav".to_owned(), "out.wav".to_owned()))
    );
    app.offline_basic_filter_finished(Err("坏".to_owned()));
    assert_eq!(app.state.last_offline_basic_filter_error.as_deref(), Some("坏"));
    app.offline_basic_filter_finished(Ok(OfflineBasicFilterMetrics {
        input_sample_rate_hz: 48_000,
        output_sample_rate_hz: 16_000,
        input_duration_seconds: number(1.0),
        output_duration_seconds: number(1.0),
        analyzed_frame_count: 9,
        active_frame_count: 3,
        kept_active_frame_count: 2,
        suppressed_active_frame_count: 1,
        mean_similarity: number(0.5),
        min_similarity: number(0.1),
        max_similarity: number(0.9),
        operating_similarity_threshold: number(0.8),
        average_frame_gain: number(0.7),
    }));
    assert_eq!(app.state.last_offline_basic_filter_error, None);
    assert!(app.state.last_offline_basic_filter_metrics.is_some());
}

fn detected(manifest: TrainingRecordingManifest) -> DetectedTrainingRecordings {
    let missing_paths = expected_recording_entries("profiles/default/recordings", 2)
        .into_iter()
        .filter(|(kind, _)| manifest.get(*kind).is_none())
        .map(|(_, path)| path)
        .collect();
    DetectedTrainingRecordings {
        manifest,
        missing_paths,
        unexpected_entries: Vec::new(),
        invalid_entries: Vec::new(),
    }
}

fn profile_of(sources: Vec<String>) -> ProfileLookup {
    ProfileLookup::Loaded {
        profile: SpeakerProfile {
            profile_id: "default".to_owned(),
            created_at_utc: String::new(),
            model_version: String::new(),
            embedding_count: 0,
            embedding_dimension: None,
            centroid: Vec::new(),
            dispersion: None,
            suggested_threshold: number(0.0),
            prompt_locale: "zh-CN".to_owned(),
            prompt_count: 2,
            free_speech_seconds: Some(30),
            raw_audio_path: None,
            cleaned_audio_path: None,
            speech_activity_threshold_dbfs: number(-42.0),
            quality_severity: "通过".to_owned(),
            quality_warning_count: 0,
            quality_error_count: 0,
            source_recordings: sources,
        },
    }
}

#[test]
fn matching_recordings_are_offered_without_a_warning() {
    let found = detected(complete_manifest());
    let mut sources = source_recordings_from_manifest(&found.manifest);
    sources.reverse();
    sources[0] = sources[0].replace('/', "\\").to_uppercase();
    let prompt = inspect_startup_recording_prompt(Some(found), 2, &profile_of(sources))
        .expect("recordings");
    assert_eq!(prompt.severity, StartupRecordingPromptSeverity::Info);
    assert_eq!(prompt.title, "检测到之前保存的录音");
    assert_eq!(
        prompt.summary,
        "当前录音文件齐全，并且与 `profiles/default/speaker_profile.json` 一一对应。"
    );
    assert_eq!(
        prompt.details,
        vec![
            "已识别有效训练录音 4/4 个。",
            "环境静音、10 句固定短句和自由发挥录音都已检测到。",
        ]
    );
}

#[test]
fn doubtful_recordings_are_offered_with_a_warning() {
    let mut manifest = complete_manifest();
    manifest.free_speech = None;
    let mut found = detected(manifest);
    found.unexpected_entries = vec!["x.txt".to_owned()];
    found.invalid_entries = vec!["y.wav：坏".to_owned()];
    let prompt = inspect_startup_recording_prompt(Some(found), 2, &ProfileLookup::Missing)
        .expect("recordings");
    assert_eq!(prompt.severity, StartupRecordingPromptSeverity::Warning);
    assert_eq!(prompt.title, "检测到旧训练录音，但目录状态需要注意");
    assert_eq!(
        prompt.details,
        vec![
            "已识别有效训练录音 3/4 个。",
            "当前训练录音并不完整。",
            "缺少：profiles/default/recordings/free_speech.wav",
            "杂项：x.txt",
            "不可读取：y.wav：坏",
            "当前默认 speaker_profile.json 不存在，无法完成一一对应校验。",
        ]
    );
    let failed = ProfileLookup::Failed { error: "坏".to_owned() };
    let prompt =
        inspect_startup_recording_prompt(Some(detected(complete_manifest())), 2, &failed)
            .expect("recordings");
    assert_eq!(
        prompt.details[2],
        "当前默认 speaker_profile.json 读取失败，无法完成一一对应校验：坏"
    );
    let other = profile_of(vec!["other.wav".to_owned()]);
    let prompt =
        inspect_startup_recording_prompt(Some(detected(complete_manifest())), 2, &other)
            .expect("recordings");
    assert_eq!(prompt.severity, StartupRecordingPromptSeverity::Warning);
    assert_eq!(prompt.details[2], "当前默认 speaker_profile.json 与录音文件没有一一对应。");
    assert!(inspect_startup_recording_prompt(None, 2, &ProfileLookup::Missing).is_none());
}
