use ek_single_mic::profile::record::{
    EnrollmentScript, REQUIRED_PROMPT_COUNT, RecordedClip, RecordingTakeKind, ScriptError,
    TrainingRecordingManifest,
};
use ek_single_mic::profile::scan::{
    ClipError, DirectoryEntry, EntryContent, RecordingFacts, default_recordings_dir,
    expected_recording_entries, finished_clip, load_recorded_clip_from_path, recording_facts,
    scan_recordings_dir, source_recordings_from_manifest, take_for_file_name,
};
use ek_single_mic::profile::wav::{
    DecodedWav, WavError, WavHeader, WavPlan, WavSamples, WavUse, decode_wav, full_scale,
    plan_for_header,
};
use ek_single_mic::util::float32::Float32;

fn number(value: f32) -> Float32 {
    Float32 { bits: value.to_bits() }
}

fn test_clip(kind: RecordingTakeKind, path: &str) -> RecordedClip {
    RecordedClip {
        kind,
        label: kind.label(),
        relative_path: path.to_owned(),
        duration_seconds: number(1.0),
        sample_rate_hz: 48_000,
        sample_count: 48_000,
        peak_linear: number(0.5),
    }
}

fn float_wav(sample_rate_hz: u32, channels: u16, samples: &[f32]) -> Vec<u8> {
    let spec = hound::WavSpec {
        channels,
        sample_rate: sample_rate_hz,
        bits_per_sample: 32,
        sample_format: hound::SampleFormat::Float,
    };
    let mut bytes = std::io::Cursor::new(Vec::new());
    let mut writer = hound::WavWriter::new(&mut bytes, spec).expect("wav should create");
    for sample in samples {
        writer.write_sample(*sample).expect("sample should write");
    }
    writer.finalize().expect("wav should finalize");
    bytes.into_inner()
}

fn int_wav(sample_rate_hz: u32, bits: u16, samples: &[i32]) -> Vec<u8> {
    let spec = hound::WavSpec {
        channels: 1,
        sample_rate: sample_rate_hz,
        bits_per_sample: bits,
        sample_format: hound::SampleFormat::Int,
    };
    let mut bytes = std::io::Cursor::new(Vec::new());
    let mut writer = hound::WavWriter::new(&mut bytes, spec).expect("wav should create");
    for sample in samples {
        writer.write_sample(*sample).expect("sample should write");
    }
    writer.finalize().expect("wav should finalize");
    bytes.into_inner()
}

fn recorded_entry(dir: &str, file_name: &str, sample_count: usize) -> DirectoryEntry {
    let samples: Vec<f32> =
        (0..sample_count).map(|index| if index % 128 == 0 { 0.25 } else { 0.0 }).collect();
    let decoded = decode_wav(&float_wav(16_000, 1, &samples), WavUse::Recording)
        .expect("recording should decode");
    let held: Vec<Float32> = samples.iter().map(|sample| number(*sample)).collect();
    DirectoryEntry {
        file_name: file_name.to_owned(),
        path: format!("{dir}/{file_name}"),
        is_file: true,
        content: EntryContent::Recording {
            facts: recording_facts(
                decoded.sample_rate_hz,
                &held,
                number(sample_count as f32 / decoded.sample_rate_hz as f32),
            ),
        },
    }
}

#[test]
fn bundled_zh_cn_prompts_are_present() {
    let script = EnrollmentScript::load_bundled_zh_cn().expect("bundled prompts should load");
    assert_eq!(script.prompts.len(), REQUIRED_PROMPT_COUNT);
    assert!(
        script
            .prompts
            .iter()
            .all(|prompt| !prompt.trim().is_empty())
    );
}

#[test]
fn script_lines_are_trimmed_and_remarks_left_out() {
    let lines: Vec<String> = (0..10).map(|index| format!("  句子{index}\t\r\n# 注释\n\n")).collect();
    let script = EnrollmentScript::from_text("zh-CN", &lines.concat()).expect("ten prompts");
    assert_eq!(script.prompts[0], "句子0");
    assert_eq!(script.prompts[9], "句子9");
    assert_eq!(script.locale, "zh-CN");
}

#[test]
fn scripts_with_another_number_of_prompts_are_refused() {
    assert_eq!(
        EnrollmentScript::from_text("zh-CN", "一句\n两句").err(),
        Some(ScriptError::PromptCount { found: 2 })
    );
    assert_eq!(
        EnrollmentScript::from_text("zh-CN", "").err(),
        Some(ScriptError::PromptCount { found: 0 })
    );
}

#[test]
fn takes_have_labels_and_files() {
    let prompt = RecordingTakeKind::FixedPrompt { index: 0 };
    assert_eq!(prompt.label(), "固定短句 01");
    assert_eq!(prompt.short_label(), "固定短句");
    assert_eq!(prompt.file_name(), "fixed_prompt_01.wav");
    assert_eq!(RecordingTakeKind::FixedPrompt { index: 99 }.file_name(), "fixed_prompt_100.wav");
    assert_eq!(RecordingTakeKind::AmbientSilence.label(), "环境静音");
    assert_eq!(RecordingTakeKind::AmbientSilence.file_name(), "ambient_silence.wav");
    assert_eq!(RecordingTakeKind::FreeSpeech.file_name(), "free_speech.wav");
}

#[test]
fn file_names_tell_their_takes() {
    assert_eq!(
        take_for_file_name("fixed_prompt_03.wav", 3),
        Some(RecordingTakeKind::FixedPrompt { index: 2 })
    );
    assert_eq!(take_for_file_name("fixed_prompt_04.wav", 3), None);
    assert_eq!(take_for_file_name("ambient_silence.wav", 0), Some(RecordingTakeKind::AmbientSilence));
    assert_eq!(take_for_file_name("free_speech.wav", 0), Some(RecordingTakeKind::FreeSpeech));
    assert_eq!(take_for_file_name("fixed_prompt_1.wav", 3), None);
}

#[test]
fn clear_from_prompt_drops_later_recordings() {
    let mut manifest = TrainingRecordingManifest::new(3);
    manifest.register(test_clip(RecordingTakeKind::AmbientSilence, "ambient.wav"));
    manifest.register(test_clip(
        RecordingTakeKind::FixedPrompt { index: 0 },
        "prompt_01.wav",
    ));
    manifest.register(test_clip(
        RecordingTakeKind::FixedPrompt { index: 1 },
        "prompt_02.wav",
    ));
    manifest.register(test_clip(
        RecordingTakeKind::FixedPrompt { index: 2 },
        "prompt_03.wav",
    ));
    manifest.register(test_clip(RecordingTakeKind::FreeSpeech, "free.wav"));

    let removed = manifest.clear_from_prompt(1);

    assert_eq!(removed.len(), 3);
    assert!(manifest.ambient_silence.is_some());
    assert!(manifest.fixed_prompts[0].is_some());
    assert!(manifest.fixed_prompts[1].is_none());
    assert!(manifest.fixed_prompts[2].is_none());
    assert!(manifest.free_speech.is_none());
}

#[test]
fn recorded_clip_count_includes_ambient_prompts_and_free_speech() {
    let mut manifest = TrainingRecordingManifest::new(3);
    assert_eq!(manifest.recorded_clip_count(), 0);

    manifest.register(test_clip(RecordingTakeKind::AmbientSilence, "ambient.wav"));
    manifest.register(test_clip(
        RecordingTakeKind::FixedPrompt { index: 1 },
        "prompt_02.wav",
    ));
    manifest.register(test_clip(RecordingTakeKind::FreeSpeech, "free.wav"));

    assert_eq!(manifest.recorded_clip_count(), 3);
}

#[test]
fn a_registered_clip_is_found_again() {
    let mut manifest = TrainingRecordingManifest::new(1);
    let kind = RecordingTakeKind::FixedPrompt { index: 0 };
    manifest.register(test_clip(kind, "first.wav"));
    manifest.register(test_clip(kind, "second.wav"));
    assert_eq!(manifest.get(kind).map(|clip| clip.relative_path.as_str()), Some("second.wav"));
    manifest.register(test_clip(RecordingTakeKind::FixedPrompt { index: 1 }, "none.wav"));
    assert!(manifest.get(RecordingTakeKind::FixedPrompt { index: 1 }).is_none());
    assert_eq!(manifest.recorded_clip_count(), 1);
}

#[test]
fn clearing_hands_out_everything_in_order() {
    let mut manifest = TrainingRecordingManifest::new(2);
    manifest.register(test_clip(RecordingTakeKind::FreeSpeech, "free.wav"));
    manifest.register(test_clip(RecordingTakeKind::FixedPrompt { index: 1 }, "two.wav"));
    manifest.register(test_clip(RecordingTakeKind::AmbientSilence, "ambient.wav"));
    assert!(!manifest.is_complete());
    manifest.register(test_clip(RecordingTakeKind::FixedPrompt { index: 0 }, "one.wav"));
    assert!(manifest.is_complete());
    assert_eq!(
        source_recordings_from_manifest(&manifest),
        vec!["ambient.wav", "one.wav", "two.wav", "free.wav"]
    );
    let removed = manifest.clear_all();
    let paths: Vec<&str> = removed.iter().map(|clip| clip.relative_path.as_str()).collect();
    assert_eq!(paths, vec!["ambient.wav", "one.wav", "two.wav", "free.wav"]);
    assert_eq!(manifest.recorded_clip_count(), 0);
    assert_eq!(manifest.fixed_prompts.len(), 2);
}

#[test]
fn expected_recordings_stand_in_the_default_directory() {
    assert_eq!(default_recordings_dir(), "profiles/default/recordings");
    let entries = expected_recording_entries("profiles\\default", 1);
    let paths: Vec<&str> = entries.iter().map(|(_, path)| path.as_str()).collect();
    assert_eq!(
        paths,
        vec![
            "profiles/default/ambient_silence.wav",
            "profiles/default/fixed_prompt_01.wav",
            "profiles/default/free_speech.wav",
        ]
    );
}

#[test]
fn scan_default_recordings_detects_complete_expected_set() {
    let dir = "root/profiles/default/recordings";
    let listing = vec![
        recorded_entry(dir, "ambient_silence.wav", 16_000),
        recorded_entry(dir, "fixed_prompt_01.wav", 16_000),
        recorded_entry(dir, "free_speech.wav", 48_000),
    ];

    let detected = scan_recordings_dir(dir, 1, Some(listing))
        .expect("existing recordings should be detected");

    assert!(detected.is_complete());
    assert!(detected.unexpected_entries.is_empty());
    assert!(detected.invalid_entries.is_empty());
    assert_eq!(detected.recognized_count(), 3);
    assert!(detected.can_load());
    let free = detected.manifest.free_speech.expect("free speech");
    assert_eq!(free.sample_count, 48_000);
    assert_eq!(free.peak_linear, number(0.25));
    assert_eq!(free.duration_seconds, number(3.0));
}

#[test]
fn scan_default_recordings_flags_missing_and_unexpected_entries() {
    let dir = "root/profiles/default/recordings";
    let listing = vec![
        recorded_entry(dir, "ambient_silence.wav", 16_000),
        DirectoryEntry {
            file_name: "notes.txt".to_owned(),
            path: format!("{dir}/notes.txt"),
            is_file: true,
            content: EntryContent::NotRead,
        },
    ];

    let detected = scan_recordings_dir(dir, 1, Some(listing))
        .expect("existing recordings should be detected");

    assert!(!detected.is_complete());
    assert_eq!(detected.missing_paths.len(), 2);
    assert_eq!(detected.unexpected_entries.len(), 1);
    assert_eq!(detected.recognized_count(), 1);
}

#[test]
fn scanning_sorts_what_it_cannot_use() {
    let dir = "rec";
    let odd = |name: &str, is_file: bool, content: EntryContent| DirectoryEntry {
        file_name: name.to_owned(),
        path: format!("{dir}\\{name}"),
        is_file,
        content,
    };
    let listing = vec![
        odd("z.txt", true, EntryContent::NotRead),
        odd("ambient_silence.wav", false, EntryContent::NotRead),
        odd("free_speech.wav", true, EntryContent::Unreadable { reason: "坏".to_owned() }),
        odd(
            "fixed_prompt_01.wav",
            true,
            EntryContent::Recording {
                facts: RecordingFacts {
                    sample_rate_hz: 0,
                    sample_count: 1,
                    peak_linear: number(0.0),
                    duration_seconds: number(0.0),
                },
            },
        ),
        odd("a.txt", true, EntryContent::NotRead),
    ];
    let detected = scan_recordings_dir(dir, 1, Some(listing)).expect("entries");
    assert_eq!(
        detected.unexpected_entries,
        vec!["rec/a.txt", "rec/ambient_silence.wav", "rec/z.txt"]
    );
    assert_eq!(
        detected.invalid_entries,
        vec![
            "rec/fixed_prompt_01.wav：recording sample rate must be positive: rec\\fixed_prompt_01.wav",
            "rec/free_speech.wav：坏",
        ]
    );
    assert_eq!(detected.recognized_count(), 0);
    assert!(!detected.can_load());
}

#[test]
fn scanning_nothing_finds_nothing() {
    assert!(scan_recordings_dir("rec", 1, None).is_none());
    assert!(scan_recordings_dir("rec", 1, Some(Vec::new())).is_none());
}

#[test]
fn clips_need_a_sample_rate() {
    let facts = RecordingFacts {
        sample_rate_hz: 0,
        sample_count: 3,
        peak_linear: number(0.5),
        duration_seconds: number(1.0),
    };
    let refused = load_recorded_clip_from_path(RecordingTakeKind::FreeSpeech, "a\\b.wav", facts);
    assert_eq!(refused.err(), Some(ClipError::NoSampleRate));
    assert_eq!(
        ClipError::NoSampleRate.message("x.wav"),
        "recording sample rate must be positive: x.wav"
    );
    let clip = finished_clip(RecordingTakeKind::FreeSpeech, "a\\b.wav", facts);
    assert_eq!(clip.relative_path, "a/b.wav");
    assert_eq!(clip.label, "自由发挥");
}

#[test]
fn integer_wav_files_are_decoded() {
    let bytes = int_wav(16_000, 16, &[0, 1, -32_768, 32_767]);
    let decoded = decode_wav(&bytes, WavUse::Quality).expect("mono file");
    assert_eq!(decoded.sample_rate_hz, 16_000);
    assert_eq!(decoded.channels, 1);
    let decoded_samples = match decoded.samples {
        WavSamples::Int { samples, full_scale } => (samples, full_scale),
        WavSamples::Float => panic!("integer samples"),
    };
    assert_eq!(decoded_samples, (vec![0, 1, -32_768, 32_767], 32_768));
}

#[test]
fn float_wav_files_are_left_to_the_caller() {
    let decoded: DecodedWav =
        decode_wav(&float_wav(48_000, 2, &[0.5, -0.5]), WavUse::Offline).expect("stereo file");
    assert_eq!(decoded.channels, 2);
    assert!(matches!(decoded.samples, WavSamples::Float));
}

#[test]
fn stereo_recordings_are_refused() {
    let bytes = float_wav(48_000, 2, &[0.5, -0.5]);
    let error = decode_wav(&bytes, WavUse::Preview).err().expect("stereo");
    assert!(matches!(error, WavError::Channels { channels: 2 }));
    assert_eq!(
        error.message(WavUse::Preview, "x.wav"),
        "recording preview only supports mono WAV input, got 2 channels at x.wav"
    );
    assert_eq!(
        error.message(WavUse::Speaker, "x.wav"),
        "speaker embedding extractor only supports mono WAV input, got 2 channels at x.wav"
    );
}

#[test]
fn files_that_are_no_wav_are_refused() {
    let error = decode_wav(b"nonsense", WavUse::Offline).err().expect("no wav");
    assert!(matches!(error, WavError::Open { .. }));
    assert_eq!(
        error.message(WavUse::Offline, "x.wav"),
        "failed to create offline WAV reader: x.wav"
    );
}

#[test]
fn truncated_wav_files_fail_while_decoding() {
    let mut bytes = int_wav(16_000, 16, &[1, 2, 3, 4]);
    let shorter = bytes.len() - 3;
    bytes.truncate(shorter);
    let error = decode_wav(&bytes, WavUse::Recording).err().expect("truncated");
    assert!(matches!(error, WavError::Decode { .. }));
    assert!(
        error.message(WavUse::Recording, "x.wav").starts_with("failed to decode WAV sample: ")
    );
}

#[test]
fn headers_decide_how_samples_are_read() {
    let header = |channels: u16, bits: u16, is_float: bool| WavHeader {
        channels,
        sample_rate_hz: 16_000,
        bits_per_sample: bits,
        is_float,
    };
    assert!(matches!(plan_for_header(header(1, 32, true), WavUse::Quality), WavPlan::Float));
    assert!(matches!(
        plan_for_header(header(1, 24, false), WavUse::Quality),
        WavPlan::Int { full_scale: 8_388_608 }
    ));
    assert!(matches!(
        plan_for_header(header(0, 16, false), WavUse::Offline),
        WavPlan::Refuse { error: WavError::Channels { channels: 0 } }
    ));
    let refused = plan_for_header(header(1, 33, false), WavUse::Quality);
    let error = match refused {
        WavPlan::Refuse { error } => error,
        _ => panic!("too many bits"),
    };
    assert_eq!(
        error.message(WavUse::Quality, "x.wav"),
        "unsupported integer WAV bits per sample 33 at x.wav"
    );
    assert!(matches!(
        plan_for_header(header(1, 0, false), WavUse::Speaker),
        WavPlan::Refuse { error: WavError::BitsPerSample { bits: 0 } }
    ));
    assert_eq!(full_scale(1), 1);
    assert_eq!(full_scale(32), 2_147_483_648);
    assert_eq!(
        WavError::Channels { channels: 0 }.message(WavUse::Offline, "x.wav"),
        "offline WAV must have at least one channel: x.wav"
    );
}
