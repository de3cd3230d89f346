use ek_single_mic::app::commands::AppCommand;
use ek_single_mic::app::state::{
    AppState, StartupRecordingPrompt, StartupRecordingPromptSeverity,
};
use ek_single_mic::app::training::TrainingStep;
use ek_single_mic::audio::devices::{DeviceInventory, VirtualCableRoute};
use ek_single_mic::config::settings::{AppSettings, InferenceMode, UiPage};
use ek_single_mic::pipeline::filter::OfflineBasicFilterMetrics;
use ek_single_mic::pipeline::realtime::{RuntimeFormatSummary, RuntimeStage};
use ek_single_mic::profile::quality::{
    ClipQualityReport, QualityIssue, QualityReport, QualitySeverity,
};
use ek_single_mic::profile::record::{
    EnrollmentScript, RecordedClip, RecordingTakeKind, TrainingRecordingManifest,
};
use ek_single_mic::profile::scan::DetectedTrainingRecordings;
use ek_single_mic::profile::storage::ProfileSummary;
use ek_single_mic::ui::debug::{
    OfflineTexts, config_lines, offline_error_line, offline_result_lines, profile_readiness,
};
use ek_single_mic::ui::devices::{
    head_lines, runtime_button, selected_device, selected_device_text,
};
use ek_single_mic::ui::inference::{profile_status_lines, runtime_status_lines};
use ek_single_mic::ui::lines::{Line, Tone};
use ek_single_mic::ui::shell::{
    load_pressed, overwrite_pressed, page_selected, question_hint_lines, question_lines,
    trouble_lines,
};
use ek_single_mic::ui::training::{
    ClipTexts, ReportTexts, header_text, input_device_line, item_rerecord_pressed, level_meter,
    preview_pressed, problem_rerecord_pressed, problematic_clip_lines, problematic_clips,
    profile_lines, progress_text, prompt_title, prompts_heading, quality_notice,
    quality_overview_lines, recording_badge, recording_item, recording_notes,
    restart_progress_text, retry_hint_lines, retry_offered, retry_pressed, severity_tone,
    step_button_pressed, step_button_text, step_focus, step_heading_text, step_intro_lines,
    step_numbers, step_outro_lines, step_ticked,
};
use ek_single_mic::util::float32::Float32;

fn number(value: f32) -> Float32 {
    Float32 { bits: value.to_bits() }
}

fn new_state() -> AppState {
    AppState::new(
        AppSettings::default(),
        "settings.json".to_owned(),
        DeviceInventory::default(),
        None,
        EnrollmentScript {
            locale: "zh-CN",
            prompts: (1..=10).map(|index| format!("句子{index}")).collect(),
        },
        None,
        None,
        None,
    )
}

fn state_at(step: TrainingStep) -> AppState {
    let mut state = new_state();
    state.training_step = step;
    state
}

fn words(lines: &[Line]) -> Vec<&str> {
    lines.iter().map(|line| line.words.as_str()).collect()
}

fn clip(kind: RecordingTakeKind) -> RecordedClip {
    RecordedClip {
        kind,
        label: kind.label(),
        relative_path: "a.wav".to_owned(),
        duration_seconds: number(1.25),
        sample_rate_hz: 16_000,
        sample_count: 20_000,
        peak_linear: number(0.5),
    }
}

fn summary(embedding_count: usize) -> ProfileSummary {
    ProfileSummary {
        profile_id: "default".to_owned(),
        created_at_utc: "2026-03-12T12:00:00Z".to_owned(),
        model_version: "v0".to_owned(),
        embedding_count,
        suggested_threshold: number(0.9),
        prompt_count: 10,
        quality_severity: "警告".to_owned(),
        quality_warning_count: 2,
        quality_error_count: 1,
    }
}

#[test]
fn the_head_tells_the_step() {
    let state = state_at(TrainingStep::FixedPrompt { index: 2 });
    assert_eq!(step_numbers(&state), (8, 25));
    assert_eq!(
        header_text(&state),
        "当前步骤：8/25 | 固定短句 | zh-CN 10 句固定短句 + 30 秒自由发挥"
    );
    assert_eq!(progress_text(&state), "训练进度 8/25");
    let again = state_at(TrainingStep::ReviewRerecord { kind: RecordingTakeKind::FreeSpeech });
    assert_eq!(header_text(&again), "当前步骤：2/2 | 重录 自由发挥 | Review 定向重录");
}

#[test]
fn steps_have_headings_and_buttons() {
    let shown = |step: TrainingStep| {
        let state = state_at(step);
        (step_heading_text(&state), step_button_text(&state), step_focus(&state, 4))
    };
    assert_eq!(
        shown(TrainingStep::Preparation),
        ("第 1 步：训练准备".to_owned(), Some(("确定准备好，开始训练", false)), None)
    );
    assert_eq!(
        shown(TrainingStep::AmbientSilence),
        ("第 2 步：环境静音".to_owned(), None, Some("4".to_owned()))
    );
    assert_eq!(
        shown(TrainingStep::FixedPromptPreparation { index: 0 }),
        (
            "第 3 步：固定短句准备 01/10".to_owned(),
            Some(("确定准备好，开始录制本句", true)),
            Some("句子1".to_owned())
        )
    );
    assert_eq!(
        shown(TrainingStep::FixedPrompt { index: 9 }),
        (
            "第 22 步：固定短句 10/10".to_owned(),
            Some(("确认本句已完成，进入自由发挥准备", true)),
            Some("句子10".to_owned())
        )
    );
    assert_eq!(
        shown(TrainingStep::FreeSpeech),
        ("第 24 步：自由发挥".to_owned(), Some(("确定已完成 30 秒自由发挥", true)), None)
    );
    assert_eq!(
        shown(TrainingStep::ReviewRerecordPreparation {
            kind: RecordingTakeKind::FixedPrompt { index: 1 }
        }),
        (
            "第 1 步：重录 固定短句准备 02/10".to_owned(),
            Some(("确定准备好，开始重录本句", true)),
            Some("句子2".to_owned())
        )
    );
    assert_eq!(
        shown(TrainingStep::ReviewRerecord { kind: RecordingTakeKind::AmbientSilence }),
        ("第 2 步：重录 环境静音".to_owned(), None, Some("4".to_owned()))
    );
    assert_eq!(
        shown(TrainingStep::Review),
        ("第 25 步：完成确认".to_owned(), Some(("重新开始本轮训练", true)), None)
    );
}

#[test]
fn steps_explain_themselves() {
    let prompt = state_at(TrainingStep::FixedPrompt { index: 2 });
    assert_eq!(
        words(&step_intro_lines(&prompt)),
        vec!["请按平时直播的自然状态朗读下面这句，读完后再点确认。"]
    );
    assert_eq!(words(&step_outro_lines(&prompt)), vec!["还剩 7 句固定短句。"]);
    let mut start = state_at(TrainingStep::Preparation);
    start.settings.selected_input_device = Some("Mic".to_owned());
    assert_eq!(step_button_text(&start), Some(("确定准备好，开始训练", true)));
    assert_eq!(step_intro_lines(&start).len(), 3);
    start.runtime_stage = RuntimeStage::RunningPassthrough;
    assert_eq!(step_intro_lines(&start).len(), 4);
    assert_eq!(step_button_text(&start), Some(("确定准备好，开始训练", false)));
    let mut review = state_at(TrainingStep::Review);
    review.last_training_quality_error = Some("坏".to_owned());
    assert_eq!(
        words(&step_intro_lines(&review))[3..].to_vec(),
        vec![
            "基础质量检查执行失败：坏",
            "如需丢弃本轮训练信息并重新开始，需要连续点击 3 次。",
        ]
    );
    review.training_quality_report = Some(QualityReport::default());
    assert_eq!(step_intro_lines(&review)[3].tone, Tone::Good);
}

#[test]
fn buttons_ask_for_commands() {
    let mut state = state_at(TrainingStep::Preparation);
    step_button_pressed(&mut state);
    assert_eq!(state.take_command(), Some(AppCommand::AdvanceTrainingStep));
    assert_eq!(restart_progress_text(&state), None);
    state.training_step = TrainingStep::Review;
    step_button_pressed(&mut state);
    assert_eq!(restart_progress_text(&state).as_deref(), Some("当前确认次数：1/3"));
    step_button_pressed(&mut state);
    assert_eq!(state.take_command(), None);
    step_button_pressed(&mut state);
    assert_eq!(state.take_command(), Some(AppCommand::RestartTrainingFlow));

    let mut ambient = state_at(TrainingStep::AmbientSilence);
    assert!(!step_ticked(&mut ambient, 1));
    assert!(step_ticked(&mut ambient, 0));
    assert_eq!(ambient.take_command(), Some(AppCommand::AdvanceTrainingStep));
    assert!(!step_ticked(&mut state, 0));

    let mut prompt = state_at(TrainingStep::FixedPrompt { index: 1 });
    assert!(retry_offered(&prompt));
    assert_eq!(
        words(&retry_hint_lines(&prompt)),
        vec!["需要连续点击 3 次才会回退并重新录制上一句话。", "当前确认次数：0/3"]
    );
    for _ in 0..3 {
        retry_pressed(&mut prompt);
    }
    assert_eq!(prompt.take_command(), Some(AppCommand::RetryPreviousPrompt));
    let first = state_at(TrainingStep::FixedPrompt { index: 0 });
    assert_eq!(words(&retry_hint_lines(&first)), vec!["当前还没有上一句话可重录。"]);
    assert!(!retry_offered(&state_at(TrainingStep::Review)));
}

#[test]
fn takes_can_be_recorded_again_from_the_list() {
    let kind = RecordingTakeKind::FreeSpeech;
    let found = clip(kind);
    let mut state = state_at(TrainingStep::Review);
    let item = recording_item(&state, Some(&found), "1.2");
    assert!(item.enabled);
    assert_eq!(item.status.words, "已录制 1.2 秒 | a.wav");
    assert_eq!(item.hint.as_deref(), Some("这里的“重录”需要连续点击 3 次才会真正触发。"));
    item_rerecord_pressed(&mut state, kind);
    let item = recording_item(&state, Some(&found), "1.2");
    assert_eq!(
        item.hint.as_deref(),
        Some("当前条目的“重录”需要连续点击 3 次才会触发：1/3")
    );
    preview_pressed(&mut state, kind);
    assert_eq!(state.take_command(), Some(AppCommand::PreviewRecordedClip { kind }));
    assert_eq!(state.review_summary_rerecord_progress(kind), None);
    for _ in 0..3 {
        item_rerecord_pressed(&mut state, kind);
    }
    assert_eq!(state.take_command(), Some(AppCommand::StartReviewRerecord { kind }));
    problem_rerecord_pressed(&mut state, kind);
    assert_eq!(state.take_command(), Some(AppCommand::StartReviewRerecord { kind }));

    let missing = recording_item(&state, None, "");
    assert!(!missing.enabled);
    assert_eq!(missing.status.words, "未录制");
    assert_eq!(missing.hint, None);
    assert_eq!(prompts_heading(&state), "固定短句：已录制 0/10 句");
    assert_eq!(prompt_title(4, "句子"), "05. 句子");
}

#[test]
fn the_microphone_is_shown() {
    let mut state = new_state();
    assert_eq!(input_device_line(&state).tone, Tone::Bad);
    state.settings.selected_input_device = Some("Mic".to_owned());
    assert_eq!(input_device_line(&state).words, "当前输入设备：Mic");
    assert_eq!(recording_badge(&state).words, "当前麦克风未录制");
    state.training_recording_active = true;
    assert_eq!(recording_badge(&state).words, "当前麦克风录制中");
    state.last_training_recording_error = Some("甲".to_owned());
    state.previewing_recording_kind = Some(RecordingTakeKind::FixedPrompt { index: 0 });
    state.last_training_preview_error = Some("乙".to_owned());
    assert_eq!(
        words(&recording_notes(&state)),
        vec!["训练录音错误：甲", "当前正在预览：固定短句 01", "录音预览错误：乙"]
    );
    assert_eq!(level_meter(number(0.3), false), (number(0.3), Tone::Muted));
    assert_eq!(level_meter(number(0.54), true), (number(0.54), Tone::Good));
    assert_eq!(level_meter(number(0.55), true), (number(0.55), Tone::Caution));
    assert_eq!(level_meter(number(0.82), true), (number(0.82), Tone::Bad));
    assert_eq!(level_meter(number(7.0), true), (number(1.0), Tone::Bad));
    assert_eq!(level_meter(number(-7.0), true), (number(0.0), Tone::Good));
}

#[test]
fn judgements_are_shown() {
    let mut state = new_state();
    assert_eq!(
        quality_notice(&state).map(|line| line.words).as_deref(),
        Some("完成整轮训练后，会在这里显示环境静音、固定短句和自由发挥的基础质量检查结果。")
    );
    let mut report = QualityReport::default();
    report.expected_prompt_count = 10;
    report.ambient_rms_dbfs = Some(number(-60.0));
    report.issues = vec![QualityIssue::error("缺".to_owned())];
    let judged = |issues: Vec<QualityIssue>| ClipQualityReport {
        kind: RecordingTakeKind::FreeSpeech,
        label: "自由发挥".to_owned(),
        relative_path: "f.wav".to_owned(),
        duration_seconds: number(2.0),
        sample_rate_hz: 16_000,
        rms_dbfs: number(-20.0),
        active_seconds: number(1.0),
        active_ratio: number(0.5),
        activity_segment_count: 2,
        issues,
    };
    report.clip_reports =
        vec![judged(Vec::new()), judged(vec![QualityIssue::warning("短".to_owned())])];
    let texts = ReportTexts {
        total_active: "3.0".to_owned(),
        threshold: "-42.0".to_owned(),
        ambient: "-60.0".to_owned(),
    };
    assert_eq!(
        words(&quality_overview_lines(&report, &texts)),
        vec![
            "当前基础质量检查存在错误，但仍可继续下一步。",
            "固定短句：0/10 | 有效语音总时长：3.0 秒 | 活动阈值：-42.0 dBFS",
            "环境静音平均电平：-60.0 dBFS",
            "警告 1 条 | 错误 1 条",
            "错误: 缺",
        ]
    );
    assert_eq!(problematic_clips(&report), vec![1]);
    let numbers = ClipTexts {
        duration: "2.0".to_owned(),
        active: "1.0".to_owned(),
        active_percent: "50".to_owned(),
    };
    assert_eq!(
        words(&problematic_clip_lines(&report.clip_reports[1], &numbers)),
        vec![
            "自由发挥 | 警告",
            "2.0 秒 | 16000 Hz | 活动 1.0 秒 (50%) | 2 段",
            "文件：f.wav",
            "警告: 短",
        ]
    );
    assert_eq!(severity_tone(QualitySeverity::Error), Tone::Bad);
    state.training_quality_report = Some(report);
    assert!(quality_notice(&state).is_none());
    state.last_training_quality_error = Some("坏".to_owned());
    assert_eq!(
        quality_notice(&state).map(|line| line.words).as_deref(),
        Some("质量检查执行失败：坏")
    );
}

#[test]
fn the_profile_is_shown() {
    let mut state = new_state();
    state.last_profile_error = Some("坏".to_owned());
    assert_eq!(
        words(&profile_lines(&state, "")),
        vec![
            "默认 profile 模式：单人单机固定使用，不提供 profile 切换。",
            "默认保存路径：profiles/default/speaker_profile.json",
            "默认 profile 状态读取失败: 坏",
            "当前还没有已保存的默认 `speaker_profile.json`。",
        ]
    );
    assert!(!profile_readiness(&state).0);
    assert_eq!(
        words(&profile_status_lines(&state, "")),
        vec!["当前还没有可用的默认 profile，请先完成训练。"]
    );
    state.default_profile_summary = Some(summary(0));
    assert!(!profile_readiness(&state).0);
    assert_eq!(profile_status_lines(&state, "")[1].tone, Tone::Caution);
    state.default_profile_summary = Some(summary(11));
    assert!(profile_readiness(&state).0);
    assert_eq!(
        words(&profile_status_lines(&state, "0.900")),
        vec![
            "default | 2026-03-12T12:00:00Z | 10 条提示词 | 11 个 embedding",
            "当前默认 profile 已就绪：11 个 embedding | 阈值建议 0.900",
            "模型版本: v0 | 质量: 警告 | 创建时间: 2026-03-12T12:00:00Z",
        ]
    );
    assert_eq!(
        words(&profile_lines(&state, "0.900"))[5..].to_vec(),
        vec![
            "模型版本: v0 | 质量: 警告 | 警告 2 条 | 错误 1 条",
            "embedding 已就绪：11 个 | 阈值建议: 0.900",
        ]
    );
}

#[test]
fn the_link_is_shown() {
    let mut state = new_state();
    assert_eq!(runtime_button(RuntimeStage::Stopped), ("启动 Passthrough", AppCommand::StartRealtime));
    assert_eq!(
        runtime_button(RuntimeStage::RunningPassthrough),
        ("停止 Passthrough", AppCommand::StopRealtime)
    );
    assert_eq!(
        words(&ek_single_mic::ui::devices::status_lines(&state, "-138.5", "-138.5")),
        vec![
            "已发现 0 个输入设备 / 0 个输出设备",
            "当前状态: Stopped",
            "输入峰值: -138.5 dBFS | 输出峰值: -138.5 dBFS",
            "输入丢帧: 0 | 输出补零帧: 0",
            "运行格式: 尚未启动实时链路。",
        ]
    );
    state.runtime_stage = RuntimeStage::RunningBasicFilter;
    state.runtime_metrics.last_chunk_active_frames = 3;
    state.runtime_metrics.last_chunk_analyzed_frames = 11;
    state.runtime_format = Some(RuntimeFormatSummary {
        input_device_name: "Mic".to_owned(),
        output_device_name: "Speaker".to_owned(),
        sample_rate_hz: 48_000,
        input_channels: 1,
        output_channels: 2,
        input_sample_format: "f32".to_owned(),
        output_sample_format: "i16".to_owned(),
    });
    assert_eq!(
        words(&ek_single_mic::ui::devices::status_lines(&state, "-1.0", "-2.0"))[4..].to_vec(),
        vec![
            "输入设备: Mic",
            "输出设备: Speaker",
            "采样率: 48000 Hz | 输入: 1 ch / f32 | 输出: 2 ch / i16",
        ]
    );
    assert_eq!(
        words(&runtime_status_lines(&state, "0.500", "0.250")),
        vec![
            "实时状态: Running (Basic Filter)",
            "当前 speaker score: 0.500 | 当前增益: 0.250",
            "最近 chunk 活动帧: 3 / 11",
        ]
    );
    state.runtime_stage = RuntimeStage::Stopped;
    state.settings.inference_mode = InferenceMode::BasicFilter;
    assert_eq!(
        words(&runtime_status_lines(&state, "", ""))[1],
        "当前已选中 Basic Filter；请到设备页启动实时链路。"
    );
}

#[test]
fn the_cable_is_shown() {
    let mut state = new_state();
    state.last_device_error = Some("坏".to_owned());
    let (lines, offered) = head_lines(&state);
    assert_eq!(
        words(&lines),
        vec![
            "设备枚举失败: 坏",
            "未检测到 VB-CABLE 录音/播放端配对，程序暂时不会自动接管虚拟音频线。",
        ]
    );
    assert!(!offered);
    state.last_device_error = None;
    state.device_inventory.virtual_cable_route = Some(VirtualCableRoute {
        driver_name: "VB-CABLE",
        playback_device_name: "CABLE Input".to_owned(),
        recording_device_name: "CABLE Output".to_owned(),
    });
    let (lines, offered) = head_lines(&state);
    assert_eq!(
        words(&lines)[..2].to_vec(),
        vec![
            "已检测到 VB-CABLE。程序输出应使用播放端：CABLE Input",
            "OBS / Discord 应选择录音端：CABLE Output",
        ]
    );
    assert!(offered);
    state.settings.selected_output_device = Some("CABLE Input".to_owned());
    let (lines, offered) = head_lines(&state);
    assert_eq!(lines[2].tone, Tone::Linked);
    assert!(!offered);
    assert_eq!(selected_device_text(&None), "未选择");
    assert_eq!(selected_device_text(&Some("Mic".to_owned())), "Mic");
    assert_eq!(selected_device("未选择".to_owned()), None);
    assert_eq!(selected_device("Mic".to_owned()).as_deref(), Some("Mic"));
}

#[test]
fn the_shell_shows_the_state() {
    let mut state = new_state();
    page_selected(&mut state, UiPage::Debug);
    assert_eq!(
        words(&ek_single_mic::ui::shell::status_lines(&state)),
        vec![
            "当前页面: 调试",
            "推理模式: Passthrough",
            "音频状态: Stopped",
            "配置文件: settings.json",
        ]
    );
    assert_eq!(words(&trouble_lines(&state)), vec!["配置保存状态: 正常"]);
    state.last_persist_error = Some("甲".to_owned());
    state.last_runtime_error = Some("乙".to_owned());
    assert_eq!(words(&trouble_lines(&state)), vec!["配置保存失败: 甲", "实时链路错误: 乙"]);
    assert_eq!(
        words(&config_lines(&state)),
        vec![
            "配置文件路径: settings.json",
            "当前页面: 调试",
            "当前模式: Passthrough",
            "最近一次配置写入失败: 甲",
        ]
    );
}

#[test]
fn the_question_is_asked() {
    let mut state = new_state();
    let prompt = || StartupRecordingPrompt {
        severity: StartupRecordingPromptSeverity::Warning,
        title: "题".to_owned(),
        summary: "要".to_owned(),
        details: vec!["细".to_owned()],
        detected_recordings: DetectedTrainingRecordings {
            manifest: TrainingRecordingManifest::new(10),
            missing_paths: Vec::new(),
            unexpected_entries: Vec::new(),
            invalid_entries: Vec::new(),
        },
    };
    let lines = question_lines(&prompt());
    assert_eq!(lines[0].tone, Tone::Caution);
    assert_eq!(
        words(&lines),
        vec![
            "要",
            "细",
            "加载文件后会直接跳到第 25 步：完成确认，并立即触发一次质量检查。",
        ]
    );
    state.startup_recording_prompt = Some(prompt());
    assert_eq!(
        words(&question_hint_lines(&state, false)),
        vec![
            "当前没有可加载的有效训练录音文件，只能选择全部覆盖重录。",
            "“全部覆盖重录”需要连续点击 3 次才会真正触发。",
        ]
    );
    overwrite_pressed(&mut state);
    assert_eq!(
        words(&question_hint_lines(&state, true)),
        vec!["“全部覆盖重录”需要连续点击 3 次才会触发：1/3"]
    );
    load_pressed(&mut state);
    assert_eq!(state.take_command(), Some(AppCommand::LoadDetectedTrainingRecordings));
    assert_eq!(state.startup_recording_overwrite_progress(), None);
    for _ in 0..3 {
        overwrite_pressed(&mut state);
    }
    assert_eq!(state.take_command(), Some(AppCommand::OverwriteDetectedTrainingRecordings));
}

#[test]
fn filtered_files_are_shown() {
    let mut state = new_state();
    assert!(offline_error_line(&state).is_none());
    state.last_offline_basic_filter_error = Some("坏".to_owned());
    assert_eq!(
        offline_error_line(&state).map(|line| line.words).as_deref(),
        Some("离线 Basic Filter 运行失败: 坏")
    );
    let metrics = OfflineBasicFilterMetrics {
        input_sample_rate_hz: 48_000,
        output_sample_rate_hz: 16_000,
        input_duration_seconds: number(2.0),
        output_duration_seconds: number(2.0),
        analyzed_frame_count: 9,
        active_frame_count: 3,
        kept_active_frame_count: 2,
        suppressed_active_frame_count: 1,
        mean_similarity: number(0.5),
        min_similarity: number(0.1),
        max_similarity: number(0.9),
        operating_similarity_threshold: number(0.8),
        average_frame_gain: number(0.7),
    };
    let texts = OfflineTexts {
        input_duration: "2.00".to_owned(),
        output_duration: "2.00".to_owned(),
        mean_similarity: "0.500".to_owned(),
        min_similarity: "0.100".to_owned(),
        max_similarity: "0.900".to_owned(),
        threshold: "0.800".to_owned(),
        average_gain: "0.700".to_owned(),
    };
    assert_eq!(
        words(&offline_result_lines(&metrics, &texts, "out.wav")),
        vec![
            "最近一次离线处理结果",
            "输入采样率: 48000 Hz | 输出采样率: 16000 Hz",
            "输入时长: 2.00 s | 输出时长: 2.00 s",
            "分析帧: 9 | 活动帧: 3 | 保留活动帧: 2 | 抑制活动帧: 1",
            "相似度: 平均 0.500 | 最低 0.100 | 最高 0.900 | 运行阈值 0.800",
            "平均帧增益: 0.700",
            "输出文件: out.wav",
        ]
    );
}
