use ek_single_mic::app::commands::AppCommand;
use ek_single_mic::app::state::{
    AppState, BusyAction, REVIEW_SUMMARY_RERECORD_CONFIRMATION_CLICKS, StartupRecordingPrompt,
    StartupRecordingPromptSeverity,
};
use ek_single_mic::app::training::TrainingStep;
use ek_single_mic::audio::devices::DeviceInventory;
use ek_single_mic::config::settings::{AppSettings, UiPage};
use ek_single_mic::pipeline::realtime::RuntimeStage;
use ek_single_mic::profile::record::{
    EnrollmentScript, RecordingTakeKind, TrainingRecordingManifest,
};
use ek_single_mic::profile::scan::DetectedTrainingRecordings;
use ek_single_mic::util::float32::Float32;

fn number(value: f32) -> Float32 {
    Float32 { bits: value.to_bits() }
}

fn test_app_state() -> AppState {
    AppState::new(
        AppSettings::default(),
        String::new(),
        DeviceInventory::default(),
        None,
        EnrollmentScript {
            locale: "zh-CN",
            prompts: vec!["测试短句".to_owned(); 10],
        },
        None,
        None,
        None,
    )
}

fn test_startup_prompt() -> StartupRecordingPrompt {
    StartupRecordingPrompt {
        severity: StartupRecordingPromptSeverity::Info,
        title: "检测到之前保存的录音".to_owned(),
        summary: "测试".to_owned(),
        details: Vec::new(),
        detected_recordings: DetectedTrainingRecordings {
            manifest: TrainingRecordingManifest::new(10),
            missing_paths: Vec::new(),
            unexpected_entries: Vec::new(),
            invalid_entries: Vec::new(),
        },
    }
}

#[test]
fn training_step_sequence_advances_linearly() {
    let prompt_count = 10;
    let mut step = TrainingStep::Preparation;
    let mut positions = Vec::new();

    for _ in 0..TrainingStep::total_steps(prompt_count) {
        positions.push(step.position(prompt_count));
        step = step.advance(prompt_count);
    }

    assert_eq!(positions, (1..=25).collect::<Vec<_>>());
    assert_eq!(step, TrainingStep::Review);
}

#[test]
fn retry_previous_prompt_targets_previous_fixed_prompt() {
    assert_eq!(
        TrainingStep::FixedPrompt { index: 3 }.retry_previous_prompt(10),
        Some(TrainingStep::FixedPromptPreparation { index: 2 })
    );
    assert_eq!(
        TrainingStep::FixedPromptPreparation { index: 3 }.retry_previous_prompt(10),
        Some(TrainingStep::FixedPromptPreparation { index: 2 })
    );
    assert_eq!(
        TrainingStep::FreeSpeechPreparation.retry_previous_prompt(10),
        Some(TrainingStep::FixedPromptPreparation { index: 9 })
    );
    assert_eq!(
        TrainingStep::FreeSpeech.retry_previous_prompt(10),
        Some(TrainingStep::FixedPromptPreparation { index: 9 })
    );
    assert_eq!(TrainingStep::Preparation.retry_previous_prompt(10), None);
    assert_eq!(
        TrainingStep::FixedPromptPreparation { index: 0 }.retry_previous_prompt(10),
        None
    );
    assert_eq!(
        TrainingStep::FixedPrompt { index: 0 }.retry_previous_prompt(10),
        None
    );
}

#[test]
fn recording_active_steps_match_guided_recording_phases() {
    let recording_steps = [
        TrainingStep::AmbientSilence,
        TrainingStep::FixedPrompt { index: 0 },
        TrainingStep::FreeSpeech,
    ];

    let non_recording_steps = [
        TrainingStep::Preparation,
        TrainingStep::FixedPromptPreparation { index: 0 },
        TrainingStep::FreeSpeechPreparation,
        TrainingStep::Review,
    ];

    for step in recording_steps {
        assert!(step.is_recording_phase());
    }

    for step in non_recording_steps {
        assert!(!step.is_recording_phase());
    }
}

#[test]
fn restart_training_requires_three_review_clicks() {
    let mut state = test_app_state();
    state.training_step = TrainingStep::Review;

    assert!(!state.confirm_restart_training());
    assert_eq!(state.training_step, TrainingStep::Review);
    assert_eq!(state.restart_training_confirmation_clicks, 1);

    assert!(!state.confirm_restart_training());
    assert_eq!(state.training_step, TrainingStep::Review);
    assert_eq!(state.restart_training_confirmation_clicks, 2);

    assert!(state.confirm_restart_training());
    assert_eq!(state.training_step, TrainingStep::Review);
    assert_eq!(state.restart_training_confirmation_clicks, 0);
}

#[test]
fn restart_training_confirmation_only_counts_on_review_step() {
    let mut state = test_app_state();

    assert!(!state.confirm_restart_training());
    assert_eq!(state.training_step, TrainingStep::Preparation);
    assert_eq!(state.restart_training_confirmation_clicks, 0);
}

#[test]
fn retry_previous_prompt_requires_three_clicks() {
    let mut state = test_app_state();
    state.training_step = TrainingStep::FixedPrompt { index: 3 };

    assert!(!state.confirm_retry_previous_prompt());
    assert_eq!(state.training_step, TrainingStep::FixedPrompt { index: 3 });
    assert_eq!(state.retry_previous_prompt_confirmation_clicks, 1);

    assert!(!state.confirm_retry_previous_prompt());
    assert_eq!(state.training_step, TrainingStep::FixedPrompt { index: 3 });
    assert_eq!(state.retry_previous_prompt_confirmation_clicks, 2);

    assert!(state.confirm_retry_previous_prompt());
    assert_eq!(state.training_step, TrainingStep::FixedPrompt { index: 3 });
    assert_eq!(state.retry_previous_prompt_confirmation_clicks, 0);
}

#[test]
fn retry_previous_prompt_confirmation_only_counts_when_retry_is_available() {
    let mut state = test_app_state();

    assert!(!state.confirm_retry_previous_prompt());
    assert_eq!(state.training_step, TrainingStep::Preparation);
    assert_eq!(state.retry_previous_prompt_confirmation_clicks, 0);
}

#[test]
fn review_summary_rerecord_requires_three_clicks_on_same_clip() {
    let mut state = test_app_state();
    state.training_step = TrainingStep::Review;

    assert!(!state.confirm_review_summary_rerecord(RecordingTakeKind::AmbientSilence));
    assert_eq!(
        state.review_summary_rerecord_progress(RecordingTakeKind::AmbientSilence),
        Some((1, REVIEW_SUMMARY_RERECORD_CONFIRMATION_CLICKS))
    );

    assert!(!state.confirm_review_summary_rerecord(RecordingTakeKind::AmbientSilence));
    assert_eq!(
        state.review_summary_rerecord_progress(RecordingTakeKind::AmbientSilence),
        Some((2, REVIEW_SUMMARY_RERECORD_CONFIRMATION_CLICKS))
    );

    assert!(state.confirm_review_summary_rerecord(RecordingTakeKind::AmbientSilence));
    assert_eq!(
        state.review_summary_rerecord_progress(RecordingTakeKind::AmbientSilence),
        None
    );
}

#[test]
fn review_summary_rerecord_resets_when_switching_target() {
    let mut state = test_app_state();
    state.training_step = TrainingStep::Review;

    assert!(!state.confirm_review_summary_rerecord(RecordingTakeKind::AmbientSilence));
    assert!(!state.confirm_review_summary_rerecord(RecordingTakeKind::FreeSpeech));
    assert_eq!(
        state.review_summary_rerecord_progress(RecordingTakeKind::AmbientSilence),
        None
    );
    assert_eq!(
        state.review_summary_rerecord_progress(RecordingTakeKind::FreeSpeech),
        Some((1, REVIEW_SUMMARY_RERECORD_CONFIRMATION_CLICKS))
    );
}

#[test]
fn rerecord_flow_uses_two_step_progress_and_returns_to_review() {
    let prompt_count = 10;
    let prep = TrainingStep::ReviewRerecordPreparation {
        kind: RecordingTakeKind::FixedPrompt { index: 2 },
    };
    let record = prep.advance(prompt_count);

    assert_eq!(prep.flow_total_steps(prompt_count), 2);
    assert_eq!(prep.position(prompt_count), 1);
    assert_eq!(record.position(prompt_count), 2);
    assert_eq!(record.advance(prompt_count), TrainingStep::Review);
}

#[test]
fn startup_recording_overwrite_requires_three_clicks() {
    let mut state = test_app_state();
    state.startup_recording_prompt = Some(test_startup_prompt());

    assert!(!state.confirm_startup_recording_overwrite());
    assert_eq!(state.startup_recording_overwrite_progress(), Some((1, 3)));

    assert!(!state.confirm_startup_recording_overwrite());
    assert_eq!(state.startup_recording_overwrite_progress(), Some((2, 3)));

    assert!(state.confirm_startup_recording_overwrite());
    assert_eq!(state.startup_recording_overwrite_progress(), None);
}

#[test]
fn offline_basic_filter_defaults_target_default_profile_free_speech_paths() {
    let mut state = test_app_state();

    assert_eq!(
        state.offline_basic_filter_input_path,
        "profiles/default/recordings/free_speech.wav"
    );
    assert_eq!(
        state.offline_basic_filter_output_path,
        "profiles/default/offline_outputs/free_speech_basic_filter.wav"
    );

    state.offline_basic_filter_input_path = "custom-input.wav".to_owned();
    state.offline_basic_filter_output_path = "custom-output.wav".to_owned();
    state.restore_default_offline_basic_filter_paths();

    assert_eq!(
        state.offline_basic_filter_input_path,
        "profiles/default/recordings/free_speech.wav"
    );
    assert_eq!(
        state.offline_basic_filter_output_path,
        "profiles/default/offline_outputs/free_speech_basic_filter.wav"
    );
}

#[test]
fn busy_action_updates_progress_and_can_finish() {
    let mut state = test_app_state();
    state.begin_busy_action(BusyAction::StartRealtime, "正在准备实时链路", number(0.4));

    assert!(state.is_busy());
    assert!(!state.has_satisfied_busy_minimum_duration(BusyAction::StartRealtime));
    assert_eq!(
        state
            .busy_state_for(BusyAction::StartRealtime)
            .map(|busy| busy.progress),
        Some(number(0.4))
    );

    state.update_busy_action(BusyAction::StartRealtime, "正在打开音频设备", number(0.75));
    assert_eq!(
        state
            .busy_state_for(BusyAction::StartRealtime)
            .map(|busy| (busy.detail.as_str(), busy.progress)),
        Some(("正在打开音频设备", number(0.75)))
    );

    state.finish_busy_action();
    assert!(!state.is_busy());
}

#[test]
fn busy_progress_is_kept_between_zero_and_one() {
    let mut state = test_app_state();
    state.begin_busy_action(BusyAction::StartRealtime, "a", number(1.5));
    assert_eq!(state.busy_state.as_ref().map(|busy| busy.progress), Some(number(1.0)));
    state.update_busy_action(BusyAction::StartRealtime, "b", number(-0.5));
    assert_eq!(state.busy_state.as_ref().map(|busy| busy.progress), Some(number(0.0)));
}

#[test]
fn busy_updates_for_another_action_are_ignored() {
    let mut state = test_app_state();
    state.begin_busy_action(BusyAction::StartRealtime, "a", number(0.5));
    state.update_busy_action(BusyAction::LoadDetectedTrainingRecordings, "b", number(0.9));
    assert!(state.busy_state_for(BusyAction::LoadDetectedTrainingRecordings).is_none());
    assert_eq!(state.busy_state.as_ref().map(|busy| busy.detail.as_str()), Some("a"));
    assert!(state.has_satisfied_busy_minimum_duration(BusyAction::LoadDetectedTrainingRecordings));
}

#[test]
fn busy_minimum_is_reached_after_its_milliseconds() {
    let mut state = test_app_state();
    assert!(state.busy_minimum_reached(BusyAction::StartRealtime, 0));
    state.begin_busy_action(BusyAction::StartRealtime, "a", number(0.5));
    assert_eq!(BusyAction::StartRealtime.minimum_visible_duration(), 450);
    assert_eq!(BusyAction::LoadDetectedTrainingRecordings.minimum_visible_duration(), 0);
    assert!(!state.busy_minimum_reached(BusyAction::StartRealtime, 449));
    assert!(state.busy_minimum_reached(BusyAction::StartRealtime, 450));
}

#[test]
fn beginning_a_busy_action_forgets_the_waiting_command() {
    let mut state = test_app_state();
    state.queue_command(AppCommand::RefreshAudioDevices);
    state.queue_command(AppCommand::StopRealtime);
    assert_eq!(state.pending_command, Some(AppCommand::StopRealtime));
    state.begin_busy_action(BusyAction::StartRealtime, "a", number(0.5));
    assert_eq!(state.take_command(), None);
}

#[test]
fn a_new_state_is_stopped_and_silent() {
    let state = test_app_state();
    assert_eq!(state.runtime_stage, RuntimeStage::Stopped);
    assert_eq!(state.training_step, TrainingStep::Preparation);
    assert_eq!(state.training_recordings.fixed_prompts.len(), 10);
    assert_eq!(state.training_recordings.recorded_clip_count(), 0);
    let silence = 20.0 * f32::EPSILON.log10();
    assert_eq!(state.runtime_metrics.input_peak_dbfs.bits, silence.to_bits());
    assert_eq!(state.runtime_metrics.output_peak_dbfs.bits, silence.to_bits());
}

#[test]
fn advancing_resets_every_confirmation() {
    let mut state = test_app_state();
    state.training_step = TrainingStep::FixedPrompt { index: 9 };
    state.confirm_retry_previous_prompt();
    state.startup_recording_prompt = Some(test_startup_prompt());
    state.confirm_startup_recording_overwrite();
    state.advance_training_step();
    assert_eq!(state.training_step, TrainingStep::FreeSpeechPreparation);
    assert_eq!(state.retry_previous_prompt_confirmation_clicks, 0);
    assert_eq!(state.startup_recording_overwrite_progress(), None);
}

#[test]
fn loading_earlier_recordings_goes_to_the_review() {
    let mut state = test_app_state();
    state.startup_recording_prompt = Some(test_startup_prompt());
    state.load_detected_training_recordings(TrainingRecordingManifest::new(10));
    assert!(state.is_review_step());
    assert!(state.startup_recording_prompt.is_none());
    assert_eq!(state.settings.selected_page, UiPage::Training);
}

#[test]
fn retrying_goes_back_to_the_prompt_before() {
    let mut state = test_app_state();
    state.training_step = TrainingStep::FreeSpeech;
    assert!(state.can_retry_previous_prompt());
    state.retry_previous_prompt();
    assert_eq!(state.training_step, TrainingStep::FixedPromptPreparation { index: 9 });
    state.training_step = TrainingStep::AmbientSilence;
    state.retry_previous_prompt();
    assert_eq!(state.training_step, TrainingStep::AmbientSilence);
}

#[test]
fn steps_have_their_titles() {
    assert_eq!(TrainingStep::default().title(), "训练准备");
    assert_eq!(TrainingStep::FixedPrompt { index: 4 }.title(), "固定短句");
    assert_eq!(
        TrainingStep::ReviewRerecordPreparation { kind: RecordingTakeKind::FreeSpeech }.title(),
        "重录 自由发挥准备"
    );
    assert_eq!(
        TrainingStep::ReviewRerecord { kind: RecordingTakeKind::FixedPrompt { index: 1 } }.title(),
        "重录 固定短句"
    );
}

#[test]
fn the_flow_records_every_take_once() {
    let mut step = TrainingStep::Preparation;
    let mut takes = Vec::new();
    for _ in 0..TrainingStep::total_steps(2) {
        if let Some(kind) = step.recording_take_kind() {
            takes.push(kind);
        }
        step = step.advance(2);
    }
    assert_eq!(
        takes,
        vec![
            RecordingTakeKind::AmbientSilence,
            RecordingTakeKind::FixedPrompt { index: 0 },
            RecordingTakeKind::FixedPrompt { index: 1 },
            RecordingTakeKind::FreeSpeech,
        ]
    );
}
