use ek_single_mic::config::settings::InferenceMode;
use ek_single_mic::ml::speaker::{
    AggregateNumbers, AggregatedSpeakerProfile, ExtractedVoice, ExtractionError,
    HEURISTIC_SPEAKER_EMBEDDING_DIMENSION, INFINITY_BITS, MAX_SUGGESTED_THRESHOLD_BITS,
    MIN_SIMILARITY_SPREAD_BITS, MIN_SUGGESTED_THRESHOLD_BITS, SpeakerEmbedding, SpeakerEngine,
    SpeakerError, check_speech_clip, counted_spread, embedding_weight, is_ambient_recording_path,
    least_similarity, observation_frames, reference_recordings, select_active_frames,
    speech_recordings, strongest_lag, strongest_positions, top_reference_scores, zero_crossings,
};
use ek_single_mic::ml::vad::VadEngine;
use ek_single_mic::pipeline::filter::{
    BACKGROUND_GAIN_BITS, BasicFilterChunkOutcome, BasicFilterEngine, CONTEXT_RADIUS_SAMPLES,
    ChunkMeans, FilterError, FrameScore, KEPT_SPEECH_GAIN_BITS, MAX_OPERATING_THRESHOLD_BITS,
    MIN_ACTIVE_GAIN_BITS, MIN_OPERATING_THRESHOLD_BITS, MIN_REJECT_THRESHOLD_BITS,
    MODEL_FRAME_SAMPLES, MODEL_HOP_SAMPLES, OfflineBasicFilterOutcome, OfflineBasicFilterProcessor,
    SUPPRESSED_SPEECH_GAIN_BITS, SmoothingRate, TARGET_PRESENCE_GAIN_FLOOR_BITS,
    TARGET_PRESENCE_HOLD_FRAMES, TargetPresenceHold, ThresholdMargins,
    operating_similarity_threshold, scores_for, silent_chunk, similarity_context,
    similarity_to_gain, smoothing_rate,
};
use ek_single_mic::pipeline::frames::{
    AudioClip, AudioFrame, frame_overlaps, frame_signal, regular_frame_list, unit_samples,
};
use ek_single_mic::pipeline::realtime::{
    RuntimeMetricsSnapshot, RuntimeStage, SILENCE_DBFS_BITS, StartError, stage_for_mode,
};
use ek_single_mic::profile::builder::SpeakerProfileBuilder;
use ek_single_mic::profile::quality::{QualityIssue, QualityReport, QualitySeverity};
use ek_single_mic::profile::record::{
    EnrollmentScript, RecordedClip, RecordingTakeKind, TrainingRecordingManifest,
};
use ek_single_mic::profile::storage::SpeakerProfile;
use ek_single_mic::util::float32::Float32;
use ek_single_mic::util::time::MODEL_SAMPLE_RATE;

const FRAME_WINDOW_SECONDS: f32 = 0.025;
const FRAME_HOP_SECONDS: f32 = 0.010;
const MIN_PITCH_HZ: f32 = 80.0;
const MAX_PITCH_HZ: f32 = 320.0;
const ZERO_CROSSING_MEAN_INDEX: usize = 0;
const SLOPE_RATIO_MEAN_INDEX: usize = 2;
const NORMALIZED_PITCH_MEAN_INDEX: usize = 6;
const REFERENCE_SUPPORT_BLEND: f32 = 0.60;
const STRONGEST_REFERENCE_WEIGHT: f32 = 0.75;
const TOP_REFERENCE_MEAN_WEIGHT: f32 = 0.25;
const OPERATING_THRESHOLD_MARGIN: f32 = 0.04;
const SIMILARITY_TRANSITION_BAND: f32 = 0.08;
const TARGET_PRESENCE_ENTER_MARGIN: f32 = 0.005;
const TARGET_PRESENCE_EXIT_MARGIN: f32 = 0.09;
const ATTACK_ALPHA: f32 = 0.6;
const RELEASE_ALPHA: f32 = 0.18;

fn held(value: f32) -> Float32 {
    Float32 {
        bits: value.to_bits(),
    }
}

fn number(value: Float32) -> f32 {
    f32::from_bits(value.bits)
}

fn held_all(values: &[f32]) -> Vec<Float32> {
    values.iter().map(|value| held(*value)).collect()
}

fn numbers(values: &[Float32]) -> Vec<f32> {
    values.iter().map(|value| number(*value)).collect()
}

fn dbfs_from_linear(sample: f32) -> f32 {
    let magnitude = sample.abs().max(f32::EPSILON);
    20.0 * magnitude.log10()
}

fn rms_linear(samples: &[f32]) -> f32 {
    if samples.is_empty() {
        return 0.0;
    }
    let mean_square = samples.iter().map(|sample| sample * sample).sum::<f32>() / samples.len() as f32;
    mean_square.sqrt()
}

fn level(samples: &[f32], frame: AudioFrame) -> Float32 {
    held(dbfs_from_linear(rms_linear(&samples[frame.start_sample..frame.end_sample])))
}

fn lerp(start: f32, end: f32, amount: f32) -> f32 {
    start + (end - start) * amount
}

fn linear_resample(samples: &[f32], source_rate_hz: u32, target_rate_hz: u32) -> Vec<f32> {
    if samples.is_empty() || source_rate_hz == 0 || target_rate_hz == 0 {
        return Vec::new();
    }
    if source_rate_hz == target_rate_hz {
        return samples.to_vec();
    }
    let output_len = ((samples.len() as f64) * target_rate_hz as f64 / source_rate_hz as f64)
        .round()
        .max(1.0) as usize;
    let step = source_rate_hz as f64 / target_rate_hz as f64;
    let mut output = Vec::with_capacity(output_len);
    for index in 0..output_len {
        let position = index as f64 * step;
        let lower_index = position.floor() as usize;
        let upper_index = (lower_index + 1).min(samples.len() - 1);
        let fraction = (position - lower_index as f64) as f32;
        output.push(lerp(samples[lower_index], samples[upper_index], fraction));
    }
    output
}

fn mean(values: &[f32]) -> f32 {
    if values.is_empty() {
        return 0.0;
    }
    values.iter().sum::<f32>() / values.len() as f32
}

fn std_dev(values: &[f32], mean: f32) -> f32 {
    if values.len() < 2 {
        return 0.0;
    }
    let variance = values
        .iter()
        .map(|value| {
            let delta = *value - mean;
            delta * delta
        })
        .sum::<f32>()
        / values.len() as f32;
    variance.sqrt()
}

fn normalize_vector(vector: &mut [f32]) {
    let norm = vector.iter().map(|value| value * value).sum::<f32>().sqrt().max(1e-6);
    for value in vector {
        *value /= norm;
    }
}

fn spectral_slope_proxy(frame: &[f32], rms_linear: f32) -> f32 {
    if frame.len() < 2 {
        return 0.0;
    }
    let slope = frame.windows(2).map(|pair| (pair[1] - pair[0]).abs()).sum::<f32>()
        / (frame.len() - 1) as f32;
    (slope / rms_linear.max(1e-4)).clamp(0.0, 8.0)
}

fn pitch_features(frame: &[f32], sample_rate_hz: u32) -> (f32, f32) {
    let min_lag = ((sample_rate_hz as f32) / MAX_PITCH_HZ).floor().max(1.0) as usize;
    let max_lag = ((sample_rate_hz as f32) / MIN_PITCH_HZ).ceil().max(min_lag as f32) as usize;
    if frame.len() <= max_lag + 1 {
        return (0.0, 0.0);
    }
    let strengths: Vec<f32> = (min_lag..=max_lag)
        .map(|lag| {
            let (mut numerator, mut left_energy, mut right_energy) = (0.0_f32, 0.0_f32, 0.0_f32);
            for index in 0..(frame.len() - lag) {
                let left = frame[index];
                let right = frame[index + lag];
                numerator += left * right;
                left_energy += left * left;
                right_energy += right * right;
            }
            let denominator = (left_energy * right_energy).sqrt().max(1e-6);
            (numerator / denominator).max(0.0)
        })
        .collect();
    let Some(best) = strongest_lag(&held_all(&strengths)) else {
        return (0.0, 0.0);
    };
    let pitch_hz = sample_rate_hz as f32 / (min_lag + best) as f32;
    let normalized_pitch =
        ((pitch_hz - MIN_PITCH_HZ) / (MAX_PITCH_HZ - MIN_PITCH_HZ)).clamp(0.0, 1.0);
    (strengths[best].clamp(0.0, 1.0), normalized_pitch)
}

/// The mean and the spread of four features over the selected frames: floating
/// point.
fn aggregate_frame_features(features: &[[f32; 4]]) -> Vec<f32> {
    let mut vector = Vec::with_capacity(HEURISTIC_SPEAKER_EMBEDDING_DIMENSION);
    for column in 0..4 {
        let values: Vec<f32> = features.iter().map(|row| row[column]).collect();
        let average = mean(&values);
        vector.push(average);
        vector.push(std_dev(&values, average));
    }
    normalize_vector(&mut vector);
    vector
}

/// The embedding of a stretch of speech, and from how many frames it was made.
fn extract_embedding_vector(
    samples: &[f32],
    sample_rate_hz: u32,
    activity_threshold_dbfs: f32,
) -> Result<(Vec<f32>, usize), SpeakerError> {
    let frame_size = ((sample_rate_hz as f32) * FRAME_WINDOW_SECONDS).round().max(64.0) as usize;
    let hop_size = ((sample_rate_hz as f32) * FRAME_HOP_SECONDS).round().max(32.0) as usize;
    let frames = observation_frames(samples.len(), sample_rate_hz, frame_size, hop_size)?;
    let levels: Vec<Float32> = frames.iter().map(|frame| level(samples, *frame)).collect();
    let selected = select_active_frames(&levels, held(activity_threshold_dbfs));
    let features: Vec<[f32; 4]> = selected
        .iter()
        .map(|position| {
            let frame = frames[*position];
            let part = &samples[frame.start_sample..frame.end_sample];
            let crossings = zero_crossings(&held_all(part));
            let (pitch_strength, normalized_pitch) = pitch_features(part, sample_rate_hz);
            [
                crossings as f32 / (part.len() - 1) as f32,
                spectral_slope_proxy(part, rms_linear(part)),
                pitch_strength,
                normalized_pitch,
            ]
        })
        .collect();
    Ok((aggregate_frame_features(&features), selected.len()))
}

fn embedding_match_score(left: &[f32], right: &[f32]) -> f32 {
    let cosine: f32 = left.iter().zip(right).map(|(left, right)| left * right).sum();
    let pitch_penalty =
        (left[NORMALIZED_PITCH_MEAN_INDEX] - right[NORMALIZED_PITCH_MEAN_INDEX]).abs() * 0.45;
    let zcr_penalty =
        (left[ZERO_CROSSING_MEAN_INDEX] - right[ZERO_CROSSING_MEAN_INDEX]).abs() * 0.20;
    let slope_penalty = (left[SLOPE_RATIO_MEAN_INDEX] - right[SLOPE_RATIO_MEAN_INDEX]).abs() * 0.15;
    (cosine - pitch_penalty - zcr_penalty - slope_penalty).clamp(0.0, 1.0)
}

fn reference_support_score(embedding: &[f32], reference_embeddings: &[Vec<f32>]) -> f32 {
    let scores: Vec<f32> = reference_embeddings
        .iter()
        .filter(|reference| reference.len() == embedding.len())
        .map(|reference| embedding_match_score(embedding, reference))
        .collect();
    if scores.is_empty() {
        return 0.0;
    }
    let top = numbers(&top_reference_scores(&held_all(&scores)));
    let top_mean = top.iter().sum::<f32>() / top.len() as f32;
    (top[0] * STRONGEST_REFERENCE_WEIGHT + top_mean * TOP_REFERENCE_MEAN_WEIGHT).clamp(0.0, 1.0)
}

/// How like the speaker an embedding is.
fn profile_match_score(
    embedding: &[f32],
    centroid: &[f32],
    reference_embeddings: &[Vec<f32>],
) -> f32 {
    let centroid_score = embedding_match_score(embedding, centroid);
    let support = reference_support_score(embedding, reference_embeddings);
    let blended = (centroid_score * (1.0 - REFERENCE_SUPPORT_BLEND)
        + support * REFERENCE_SUPPORT_BLEND)
        .clamp(0.0, 1.0);
    number(SpeakerEngine::profile_match_score(held(centroid_score), held(support), held(blended)))
}

/// How a speaker sounds, from the embeddings of the recordings.
fn aggregate_embeddings(
    embeddings: Vec<SpeakerEmbedding>,
) -> Result<AggregatedSpeakerProfile, SpeakerError> {
    SpeakerEngine::check_embeddings(&embeddings)?;
    let vectors: Vec<Vec<f32>> =
        embeddings.iter().map(|embedding| numbers(&embedding.vector)).collect();
    let mut centroid = vec![0.0_f32; HEURISTIC_SPEAKER_EMBEDDING_DIMENSION];
    let mut total_weight = 0.0_f32;
    for (embedding, vector) in embeddings.iter().zip(&vectors) {
        let weight = embedding_weight(embedding) as f32;
        for (slot, value) in centroid.iter_mut().zip(vector) {
            *slot += *value * weight;
        }
        total_weight += weight;
    }
    for slot in &mut centroid {
        *slot /= total_weight.max(1.0);
    }
    normalize_vector(&mut centroid);
    let similarities: Vec<f32> =
        vectors.iter().map(|vector| embedding_match_score(vector, &centroid)).collect();
    let mean_similarity = similarities.iter().sum::<f32>() / similarities.len() as f32;
    let least = number(least_similarity(&held_all(&similarities)));
    let spread = number(counted_spread(held(std_dev(&similarities, mean_similarity))));
    let dispersion = similarities.iter().map(|similarity| 1.0 - similarity).sum::<f32>()
        / similarities.len() as f32;
    SpeakerEngine::aggregate_embeddings(
        embeddings,
        AggregateNumbers {
            centroid: held_all(&centroid),
            mean_similarity: held(mean_similarity),
            dispersion: held(dispersion),
            threshold_candidate: held(least - spread - 0.03),
        },
    )
}

/// The threshold at which a profile works.
fn operating_threshold(profile: &SpeakerProfile) -> Float32 {
    let dispersion = profile.dispersion.map(number).unwrap_or_default();
    operating_similarity_threshold(held(
        number(profile.suggested_threshold) + dispersion + OPERATING_THRESHOLD_MARGIN,
    ))
}

/// A threshold less each of its margins.
fn threshold_margins(threshold: Float32) -> ThresholdMargins {
    let threshold = number(threshold);
    ThresholdMargins {
        less_transition: held(threshold - SIMILARITY_TRANSITION_BAND),
        less_enter: held(threshold - TARGET_PRESENCE_ENTER_MARGIN),
        less_exit: held(threshold - TARGET_PRESENCE_EXIT_MARGIN),
    }
}

/// A filter for the speaker of `profile`.
fn filter_for(
    profile: &SpeakerProfile,
    extracted: Vec<Result<Vec<Float32>, String>>,
) -> Result<BasicFilterEngine, FilterError> {
    let threshold = operating_threshold(profile);
    BasicFilterEngine::from_profile(
        profile,
        threshold,
        threshold_margins(threshold),
        extracted,
    )
}

/// What the filter needs to know of a frame of this similarity.
fn frame_score(engine: &BasicFilterEngine, similarity: f32) -> FrameScore {
    let least = f32::from_bits(MIN_ACTIVE_GAIN_BITS);
    let threshold = number(engine.operating_similarity_threshold);
    let reject = number(engine.reject_threshold);
    let enter = number(engine.target_presence.enter_threshold);
    let exit = number(engine.target_presence.exit_threshold);
    let within = (similarity - reject) / (threshold - reject).max(1e-4);
    let presence = ((similarity - exit) / (enter - exit).max(1e-4)).clamp(0.0, 1.0);
    FrameScore {
        similarity: held(similarity),
        interpolated_gain: held(lerp(least, 1.0, within.clamp(0.0, 1.0))),
        dynamic_floor: held(lerp(
            least,
            number(engine.target_presence.overlap_gain_floor),
            presence,
        )),
    }
}

/// The gains without jumps. The first one follows the last of the chunk before,
/// where there was one.
fn smooth_gains(desired_gains: &[f32], previous_gain: Option<f32>) -> Vec<f32> {
    let mut current = match previous_gain {
        Some(gain) => gain,
        None => desired_gains.first().copied().unwrap_or_default(),
    };
    desired_gains
        .iter()
        .map(|desired| {
            let alpha = match smoothing_rate(held(*desired), held(current)) {
                SmoothingRate::Attack => ATTACK_ALPHA,
                SmoothingRate::Release => RELEASE_ALPHA,
            };
            current += (*desired - current) * alpha;
            current
        })
        .collect()
}

fn apply_frame_gains(samples: &[f32], frames: &Vec<AudioFrame>, frame_gains: &[f32]) -> Vec<f32> {
    if samples.is_empty() || frames.is_empty() || frame_gains.is_empty() {
        return Vec::new();
    }
    let overlaps = frame_overlaps(samples.len(), frames);
    let mut weighted = vec![0.0_f32; samples.len()];
    for (frame, gain) in frames.iter().zip(frame_gains) {
        for index in frame.start_sample..frame.end_sample.min(samples.len()) {
            weighted[index] += samples[index] * gain;
        }
    }
    weighted
        .into_iter()
        .zip(overlaps)
        .zip(samples)
        .map(|((sum, overlap), original)| {
            let gained = if overlap > 0 { sum / overlap as f32 } else { *original };
            gained.tanh()
        })
        .collect()
}

/// Filters one chunk at the model's sample rate.
fn process_model_rate_samples(
    engine: &mut BasicFilterEngine,
    samples: &[f32],
) -> Result<BasicFilterChunkOutcome, FilterError> {
    let frames = BasicFilterEngine::chunk_frames(samples.len())?;
    let levels: Vec<Float32> = frames.iter().map(|frame| level(samples, *frame)).collect();
    let decisions = engine.vad.analyze(&frames, &levels);
    let centroid = numbers(&engine.centroid);
    let references: Vec<Vec<f32>> =
        engine.reference_embeddings.iter().map(|vector| numbers(vector)).collect();
    let activity_threshold = number(engine.vad.activity_threshold_dbfs());
    let active_scores: Vec<FrameScore> = decisions
        .iter()
        .filter(|decision| decision.is_active)
        .map(|decision| {
            let around = similarity_context(decision.frame, samples.len());
            let context = &samples[around.start_sample..around.end_sample];
            let similarity = extract_embedding_vector(context, MODEL_SAMPLE_RATE, activity_threshold)
                .map(|(embedding, _)| profile_match_score(&embedding, &centroid, &references))
                .unwrap_or(0.0);
            frame_score(engine, similarity)
        })
        .collect();
    let scores = scores_for(&decisions, &active_scores);
    let pass = engine.decide_gains(&scores);
    let smoothed = smooth_gains(&numbers(&pass.desired_gains), engine.previous_gain.map(number));
    let means = ChunkMeans {
        similarity: held(mean(&numbers(&pass.similarities))),
        frame_gain: held(mean(&smoothed)),
    };
    let metrics = engine.complete_chunk(&scores, &pass.similarities, &held_all(&smoothed), means);
    Ok(BasicFilterChunkOutcome {
        output_samples: held_all(&apply_frame_gains(samples, &frames, &smoothed)),
        metrics,
    })
}

/// Filters a whole clip.
fn process_clip(
    profile: &SpeakerProfile,
    extracted: Vec<Result<Vec<Float32>, String>>,
    input_clip: &AudioClip,
) -> Result<OfflineBasicFilterOutcome, FilterError> {
    let samples = numbers(&input_clip.samples);
    let model_samples = linear_resample(&samples, input_clip.sample_rate_hz, MODEL_SAMPLE_RATE);
    let mut engine = filter_for(profile, extracted)?;
    let outcome = process_model_rate_samples(&mut engine, &model_samples)?;
    Ok(OfflineBasicFilterProcessor.process_clip(
        input_clip,
        held(samples.len() as f32 / input_clip.sample_rate_hz as f32),
        held(model_samples.len() as f32 / MODEL_SAMPLE_RATE as f32),
        outcome,
    ))
}

fn sine(sample_rate_hz: u32, frequency_hz: f32, duration_seconds: f32) -> Vec<f32> {
    let sample_count = (sample_rate_hz as f32 * duration_seconds) as usize;
    (0..sample_count)
        .map(|index| {
            let time = index as f32 / sample_rate_hz as f32;
            let envelope =
                (time / duration_seconds).min(1.0) * (1.0 - (time / duration_seconds - 0.5).abs());
            (2.0 * std::f32::consts::PI * frequency_hz * time).sin() * 0.25 * envelope.max(0.2)
        })
        .collect()
}

fn voiced(
    sample_rate_hz: u32,
    frequency_hz: f32,
    duration_seconds: f32,
    wobble_hz: f32,
) -> Vec<f32> {
    let sample_count = (sample_rate_hz as f32 * duration_seconds) as usize;
    (0..sample_count)
        .map(|index| {
            let time = index as f32 / sample_rate_hz as f32;
            let carrier = (2.0 * std::f32::consts::PI * frequency_hz * time).sin();
            let modulator = (2.0 * std::f32::consts::PI * wobble_hz * time).sin() * 0.15 + 0.85;
            (carrier * modulator * 0.25).clamp(-1.0, 1.0)
        })
        .collect()
}

fn clip(kind: RecordingTakeKind, path: &str, sample_count: usize) -> RecordedClip {
    RecordedClip {
        kind,
        label: kind.label(),
        relative_path: path.to_owned(),
        duration_seconds: held(sample_count as f32 / 16_000.0),
        sample_rate_hz: 16_000,
        sample_count,
        peak_linear: held(0.25),
    }
}

fn extracted(samples: &[f32], threshold: f32) -> ExtractedVoice {
    let (vector, active_frame_count) =
        extract_embedding_vector(samples, 16_000, threshold).expect("clip should be long enough");
    ExtractedVoice { vector: held_all(&vector), active_frame_count }
}

fn profile_with(suggested_threshold: f32, dispersion: Option<f32>) -> SpeakerProfile {
    SpeakerProfile {
        profile_id: "default".to_owned(),
        created_at_utc: "2026-03-15T00:00:00Z".to_owned(),
        model_version: "heuristic-speaker-embedding-v0".to_owned(),
        embedding_count: 11,
        embedding_dimension: Some(8),
        centroid: vec![held(0.0); 8],
        dispersion: dispersion.map(held),
        suggested_threshold: held(suggested_threshold),
        prompt_locale: "zh-CN".to_owned(),
        prompt_count: 10,
        free_speech_seconds: Some(30),
        raw_audio_path: Some("profiles/default/recordings".to_owned()),
        cleaned_audio_path: None,
        speech_activity_threshold_dbfs: held(-42.0),
        quality_severity: "通过".to_owned(),
        quality_warning_count: 0,
        quality_error_count: 0,
        source_recordings: Vec::new(),
    }
}

#[test]
fn extract_manifest_embeddings_returns_prompt_and_free_speech_vectors() {
    let prompt = sine(16_000, 220.0, 1.2);
    let free = sine(16_000, 180.0, 3.0);
    let mut manifest = TrainingRecordingManifest::new(1);
    manifest.register(clip(
        RecordingTakeKind::FixedPrompt { index: 0 },
        "profiles/default/recordings/fixed_prompt_01.wav",
        16_000,
    ));
    manifest.register(clip(
        RecordingTakeKind::FreeSpeech,
        "profiles/default/recordings/free_speech.wav",
        48_000,
    ));
    let voices = vec![Ok(extracted(&prompt, -40.0)), Ok(extracted(&free, -40.0))];
    let embeddings = SpeakerEngine::extract_manifest_embeddings(&manifest, voices)
        .expect("embedding extraction should succeed");
    let aggregated = aggregate_embeddings(embeddings.clone())
        .expect("embedding aggregation should succeed");

    assert_eq!(embeddings.len(), 2);
    assert!(embeddings.iter().all(|embedding| embedding.active_frame_count > 0));
    assert_eq!(embeddings[0].kind, RecordingTakeKind::FixedPrompt { index: 0 });
    assert_eq!(embeddings[1].kind, RecordingTakeKind::FreeSpeech);
    assert_eq!(aggregated.embeddings.len(), 2);
    assert_eq!(aggregated.centroid.len(), HEURISTIC_SPEAKER_EMBEDDING_DIMENSION);
    assert!(number(aggregated.suggested_threshold) > 0.0);
}

#[test]
fn extract_reference_embeddings_skips_ambient_silence_recordings() {
    let paths = vec![
        "profiles/default/recordings/ambient_silence.wav".to_owned(),
        "profiles/default/recordings/fixed_prompt_01.wav".to_owned(),
        "profiles/default/recordings/free_speech.wav".to_owned(),
    ];
    let speech = reference_recordings(&paths);
    assert_eq!(speech, paths[1..].to_vec());
    let vectors = vec![
        Ok(extracted(&sine(16_000, 220.0, 1.2), -40.0).vector),
        Ok(extracted(&sine(16_000, 180.0, 3.0), -40.0).vector),
    ];
    let embeddings = SpeakerEngine::extract_reference_embeddings(&paths, vectors)
        .expect("reference extraction should succeed");

    assert_eq!(embeddings.len(), 2);
    assert!(
        embeddings
            .iter()
            .all(|embedding| embedding.len() == HEURISTIC_SPEAKER_EMBEDDING_DIMENSION)
    );
}

#[test]
fn profile_match_score_uses_reference_support_when_available() {
    let centroid = vec![0.10, 0.05, 0.10, 0.10, 0.93, 0.24, 0.14, 0.12];
    let embedding = vec![0.02, 0.05, 0.08, 0.10, 0.91, 0.30, 0.16, 0.17];
    let references = vec![
        embedding.clone(),
        vec![0.03, 0.05, 0.09, 0.12, 0.89, 0.29, 0.18, 0.17],
        vec![0.04, 0.06, 0.10, 0.11, 0.90, 0.28, 0.17, 0.18],
    ];

    let centroid_only = profile_match_score(&embedding, &centroid, &[]);
    let supported = profile_match_score(&embedding, &centroid, &references);
    let fallback = profile_match_score(&embedding, &centroid, &[]);

    assert!(supported > centroid_only);
    assert_eq!(fallback, centroid_only);
}

#[test]
fn builder_emits_embedding_ready_default_profile() {
    let script = EnrollmentScript {
        locale: "zh-CN",
        prompts: vec!["一句".to_owned(), "两句".to_owned()],
    };
    let mut manifest = TrainingRecordingManifest::new(script.prompts.len());
    for (kind, sample_count) in [
        (RecordingTakeKind::AmbientSilence, 80_000),
        (RecordingTakeKind::FixedPrompt { index: 0 }, 19_200),
        (RecordingTakeKind::FixedPrompt { index: 1 }, 19_200),
        (RecordingTakeKind::FreeSpeech, 48_000),
    ] {
        let path = format!("root/profiles/default/recordings/{}", kind.file_name());
        manifest.register(clip(kind, &path, sample_count));
    }
    let report = QualityReport {
        expected_prompt_count: 2,
        recorded_prompt_count: 2,
        ambient_rms_dbfs: Some(held(-58.0)),
        speech_activity_threshold_dbfs: held(-42.0),
        total_active_speech_seconds: held(18.0),
        clip_reports: Vec::new(),
        issues: vec![QualityIssue {
            severity: QualitySeverity::Warning,
            message: "测试提醒".to_owned(),
        }],
    };
    let recordings = [
        voiced(16_000, 215.0, 1.2, 2.5),
        voiced(16_000, 205.0, 1.2, 2.5),
        voiced(16_000, 210.0, 3.0, 2.5),
    ];
    let voices = recordings.iter().map(|samples| Ok(extracted(samples, -42.0))).collect();
    let embeddings = SpeakerEngine::extract_manifest_embeddings(&manifest, voices)
        .expect("embedding extraction should succeed");
    let aggregated =
        aggregate_embeddings(embeddings).expect("embedding aggregation should succeed");

    let profile = SpeakerProfileBuilder::build_default(
        &manifest,
        &report,
        &script,
        aggregated,
        "2026-03-15T00:00:00Z".to_owned(),
    )
    .expect("builder should succeed for complete manifest");

    assert_eq!(profile.profile_id, "default");
    assert_eq!(profile.model_version, "heuristic-speaker-embedding-v0");
    assert_eq!(profile.embedding_count, 3);
    assert_eq!(profile.prompt_count, 2);
    assert_eq!(profile.quality_warning_count, 1);
    assert_eq!(profile.quality_error_count, 0);
    assert!(profile.embedding_dimension.is_some());
    assert!(!profile.centroid.is_empty());
    assert!(profile.dispersion.is_some());
    assert!(number(profile.suggested_threshold) > 0.0);
    assert_eq!(profile.source_recordings.len(), 4);
    assert_eq!(profile.raw_audio_path.as_deref(), Some("root/profiles/default/recordings"));
    assert_eq!(profile.quality_severity, "警告");
    assert_eq!(profile.free_speech_seconds, Some(30));
}

#[test]
fn offline_basic_filter_preserves_target_like_segments_more_than_off_target_segments() {
    let voice = |frequency: f32, duration: f32| voiced(MODEL_SAMPLE_RATE, frequency, duration, 3.2);
    let mut manifest = TrainingRecordingManifest::new(2);
    let kinds = [
        (RecordingTakeKind::AmbientSilence, 80_000),
        (RecordingTakeKind::FixedPrompt { index: 0 }, 17_600),
        (RecordingTakeKind::FixedPrompt { index: 1 }, 17_600),
        (RecordingTakeKind::FreeSpeech, 48_000),
    ];
    for (kind, sample_count) in kinds {
        let path = format!("profiles/default/recordings/{}", kind.file_name());
        manifest.register(clip(kind, &path, sample_count));
    }
    let recordings = [voice(210.0, 1.1), voice(220.0, 1.1), voice(215.0, 3.0)];
    let voices: Vec<ExtractedVoice> =
        recordings.iter().map(|samples| extracted(samples, -42.0)).collect();
    let references: Vec<Result<Vec<Float32>, String>> =
        voices.iter().map(|voice| Ok(voice.vector.clone())).collect();
    let voices = voices.into_iter().map(Ok).collect();
    let embeddings = SpeakerEngine::extract_manifest_embeddings(&manifest, voices)
        .expect("embedding extraction should succeed");
    let aggregated =
        aggregate_embeddings(embeddings).expect("embedding aggregation should succeed");
    let profile = SpeakerProfileBuilder::build_default(
        &manifest,
        &QualityReport {
            expected_prompt_count: 2,
            recorded_prompt_count: 2,
            ambient_rms_dbfs: Some(held(-60.0)),
            speech_activity_threshold_dbfs: held(-42.0),
            total_active_speech_seconds: held(18.0),
            clip_reports: Vec::new(),
            issues: Vec::new(),
        },
        &EnrollmentScript {
            locale: "zh-CN",
            prompts: vec!["一".to_owned(), "二".to_owned()],
        },
        aggregated,
        "2026-03-15T00:00:00Z".to_owned(),
    )
    .expect("profile build should succeed");

    let input = [voice(215.0, 0.8), voice(300.0, 0.8), voice(210.0, 0.8)].concat();
    let outcome = process_clip(
        &profile,
        references,
        &AudioClip { sample_rate_hz: MODEL_SAMPLE_RATE, samples: held_all(&input) },
    )
    .expect("offline processing should succeed");
    let output = numbers(&outcome.output_clip.samples);

    let segment_samples = (MODEL_SAMPLE_RATE as f32 * 0.8) as usize;
    let retention = |segment: usize| {
        let range = segment * segment_samples..(segment + 1) * segment_samples;
        rms_linear(&output[range.clone()]) / rms_linear(&input[range])
    };
    let target_retention = (retention(0) + retention(2)) * 0.5;
    let intruder_retention = retention(1);
    assert!(target_retention > intruder_retention);
    assert!(target_retention > 0.20);
    assert!(outcome.metrics.active_frame_count > 0);
    assert_eq!(outcome.metrics.input_sample_rate_hz, MODEL_SAMPLE_RATE);
    assert_eq!(number(outcome.metrics.input_duration_seconds), 2.4);
    assert_eq!(outcome.metrics.analyzed_frame_count, 239);
}

#[test]
fn operating_threshold_stays_close_to_profile_suggestion() {
    let profile = profile_with(0.9001, Some(0.0114));
    let threshold = number(operating_threshold(&profile));
    assert!(threshold > number(profile.suggested_threshold));
    assert!(threshold <= f32::from_bits(MAX_OPERATING_THRESHOLD_BITS));
    assert!(threshold < 0.96);
}

#[test]
fn target_presence_hold_preserves_recent_target_frames() {
    let least = f32::from_bits(MIN_ACTIVE_GAIN_BITS);
    let mut hold = TargetPresenceHold::new(threshold_margins(held(0.93)));
    let update = |hold: &mut TargetPresenceHold, similarity: f32, base_gain: f32| {
        let enter = number(hold.enter_threshold);
        let exit = number(hold.exit_threshold);
        let presence = ((similarity - exit) / (enter - exit).max(1e-4)).clamp(0.0, 1.0);
        let floor = lerp(least, number(hold.overlap_gain_floor), presence);
        number(hold.update_active_frame(held(similarity), held(base_gain), held(floor)))
    };
    let confident_gain = update(&mut hold, 0.95, 1.0);
    assert_eq!(confident_gain, 1.0);

    let preserved_gain = update(&mut hold, 0.88, least);
    assert!(preserved_gain > least);

    let low_similarity_gain = update(&mut hold, 0.82, least);
    assert_eq!(low_similarity_gain, least);

    for _ in 0..TARGET_PRESENCE_HOLD_FRAMES {
        hold.update_inactive_frame();
    }

    let released_gain = update(&mut hold, 0.82, least);
    assert_eq!(released_gain, least);
}

#[test]
fn held_constants_are_the_numbers_they_stand_for() {
    assert_eq!(f32::from_bits(BACKGROUND_GAIN_BITS), 0.03);
    assert_eq!(f32::from_bits(MIN_ACTIVE_GAIN_BITS), 0.08);
    assert_eq!(f32::from_bits(KEPT_SPEECH_GAIN_BITS), 0.75);
    assert_eq!(f32::from_bits(SUPPRESSED_SPEECH_GAIN_BITS), 0.20);
    assert_eq!(f32::from_bits(MIN_OPERATING_THRESHOLD_BITS), 0.72);
    assert_eq!(f32::from_bits(MAX_OPERATING_THRESHOLD_BITS), 0.93);
    assert_eq!(f32::from_bits(MIN_REJECT_THRESHOLD_BITS), 0.20);
    assert_eq!(f32::from_bits(TARGET_PRESENCE_GAIN_FLOOR_BITS), 0.35);
    assert_eq!(f32::from_bits(MIN_SUGGESTED_THRESHOLD_BITS), 0.45);
    assert_eq!(f32::from_bits(MAX_SUGGESTED_THRESHOLD_BITS), 0.95);
    assert_eq!(f32::from_bits(MIN_SIMILARITY_SPREAD_BITS), 0.04);
    assert_eq!(f32::from_bits(INFINITY_BITS), f32::INFINITY);
    assert_eq!(MODEL_FRAME_SAMPLES, (16_000_f32 * 0.025).round() as usize);
    assert_eq!(MODEL_HOP_SAMPLES, (16_000_f32 * 0.010).round() as usize);
    assert_eq!(CONTEXT_RADIUS_SAMPLES, (16_000_f32 * 0.40 * 0.5).round() as usize);
    assert_eq!(held(dbfs_from_linear(0.0)).bits, SILENCE_DBFS_BITS);
}

#[test]
fn operating_thresholds_stay_in_their_range() {
    assert_eq!(number(operating_similarity_threshold(held(0.1))), 0.72);
    assert_eq!(number(operating_similarity_threshold(held(0.8))), 0.8);
    assert_eq!(number(operating_similarity_threshold(held(2.0))), 0.93);
    assert_eq!(number(operating_threshold(&profile_with(0.8, None))), 0.8 + 0.0 + 0.04);
}

#[test]
fn gains_follow_the_similarity() {
    let gain = |similarity: f32| {
        number(similarity_to_gain(held(similarity), held(0.9), held(0.82), held(0.5)))
    };
    assert_eq!(gain(0.9), 1.0);
    assert_eq!(gain(0.85), 0.5);
    assert_eq!(gain(0.82), 0.08);
    assert_eq!(gain(f32::NAN), 0.5);
}

#[test]
fn a_low_threshold_still_rejects_the_unlike() {
    let hold = TargetPresenceHold::new(threshold_margins(held(0.1)));
    assert_eq!(number(hold.enter_threshold), 0.20);
    assert_eq!(number(hold.exit_threshold), 0.20);
}

#[test]
fn the_hold_lasts_for_its_frames_only() {
    let mut hold = TargetPresenceHold::new(threshold_margins(held(0.9)));
    let like = held(0.86);
    hold.update_active_frame(held(0.95), held(1.0), held(0.3));
    assert_eq!(hold.remaining_hold_frames, TARGET_PRESENCE_HOLD_FRAMES);
    assert_eq!(number(hold.update_active_frame(like, held(0.1), held(0.3))), 0.3);
    for _ in 0..TARGET_PRESENCE_HOLD_FRAMES {
        hold.update_inactive_frame();
    }
    assert_eq!(hold.remaining_hold_frames, 0);
    assert_eq!(number(hold.update_active_frame(like, held(0.1), held(0.3))), 0.1);
}

#[test]
fn profiles_without_a_usable_voice_are_refused() {
    let threshold = held(0.9);
    let refuse = |profile: &SpeakerProfile| {
        BasicFilterEngine::from_profile(
            profile,
            threshold,
            threshold_margins(threshold),
            Vec::new(),
        )
        .err()
    };
    let mut profile = profile_with(0.9, None);
    assert_eq!(refuse(&profile), None);
    profile.embedding_dimension = Some(7);
    assert_eq!(refuse(&profile), Some(FilterError::CentroidSizeMismatch));
    profile.embedding_count = 0;
    assert_eq!(refuse(&profile), Some(FilterError::ProfileWithoutEmbedding));
    assert_eq!(
        FilterError::ProfileWithoutEmbedding.message(),
        "basic filter requires an embedding-ready speaker profile"
    );
    assert_eq!(BasicFilterEngine::chunk_frames(0).err(), Some(FilterError::NoFrames));
    assert_eq!(
        FilterError::NoFrames.message(),
        "basic filter could not frame the input audio"
    );
}

#[test]
fn silence_is_kept_down_and_counted() {
    let mut engine = filter_for(&profile_with(0.9, None), Vec::new()).expect("usable profile");
    let outcome = process_model_rate_samples(&mut engine, &vec![0.0; 1_600]).expect("frames");
    assert_eq!(outcome.metrics.analyzed_frame_count, 9);
    assert_eq!(outcome.metrics.active_frame_count, 0);
    assert!((number(outcome.metrics.average_frame_gain) - 0.03).abs() < 1e-6);
    assert_eq!(number(outcome.metrics.latest_frame_gain), 0.03);
    assert_eq!(number(outcome.metrics.min_similarity), 0.0);
    assert_eq!(engine.previous_gain, Some(held(0.03)));
    let silent = silent_chunk(3);
    assert_eq!(silent.output_samples, vec![held(0.0); 3]);
    assert_eq!(silent.metrics.analyzed_frame_count, 0);
}

#[test]
fn every_frame_is_decided_and_counted() {
    let mut engine = filter_for(&profile_with(0.9, None), Vec::new()).expect("usable profile");
    let score = |similarity: f32| FrameScore {
        similarity: held(similarity),
        interpolated_gain: held(0.2),
        dynamic_floor: held(0.3),
    };
    let scores = vec![Some(score(0.99)), None, Some(score(0.88)), Some(score(0.1))];
    let pass = engine.decide_gains(&scores);
    assert_eq!(numbers(&pass.desired_gains), vec![1.0, 0.03, 0.3, 0.08]);
    assert_eq!(numbers(&pass.similarities), vec![0.99, 0.88, 0.1]);
    assert_eq!(engine.target_presence.remaining_hold_frames, 10);
    let gains = held_all(&[0.75, 0.2, 0.5, 0.2]);
    let means = ChunkMeans { similarity: held(0.6), frame_gain: held(0.4) };
    let metrics = engine.complete_chunk(&scores, &pass.similarities, &gains, means);
    assert_eq!(metrics.analyzed_frame_count, 4);
    assert_eq!(metrics.active_frame_count, 3);
    assert_eq!(metrics.kept_active_frame_count, 1);
    assert_eq!(metrics.suppressed_active_frame_count, 1);
    assert_eq!(number(metrics.min_similarity), 0.1);
    assert_eq!(number(metrics.max_similarity), 0.99);
    assert_eq!(number(metrics.latest_similarity), 0.1);
    assert_eq!(number(metrics.latest_frame_gain), 0.2);
    assert_eq!(number(metrics.mean_similarity), 0.6);
    assert_eq!(engine.previous_gain, Some(held(0.2)));
}

#[test]
fn contexts_stay_in_the_signal() {
    let frame = AudioFrame { start_sample: 0, end_sample: 400 };
    let around = similarity_context(frame, 10_000);
    assert_eq!((around.start_sample, around.end_sample), (0, 3_400));
    let late = AudioFrame { start_sample: 9_600, end_sample: 10_000 };
    let around = similarity_context(late, 10_000);
    assert_eq!((around.start_sample, around.end_sample), (6_600, 10_000));
}

#[test]
fn speech_lingers_for_a_few_frames() {
    let frames: Vec<AudioFrame> =
        (0..7).map(|i| AudioFrame { start_sample: i * 160, end_sample: i * 160 + 400 }).collect();
    let levels = held_all(&[-50.0, -42.0, -50.0, -50.0, -50.0, -50.0, -10.0]);
    let engine = VadEngine::new(held(-42.0));
    let active: Vec<bool> =
        engine.analyze(&frames, &levels).iter().map(|decision| decision.is_active).collect();
    assert_eq!(active, vec![false, true, true, true, true, false, true]);
    assert_eq!(engine.activity_threshold_dbfs(), held(-42.0));
}

#[test]
fn frames_cover_the_signal() {
    let spans = |frames: Vec<AudioFrame>| -> Vec<(usize, usize)> {
        frames.iter().map(|frame| (frame.start_sample, frame.end_sample)).collect()
    };
    assert_eq!(spans(frame_signal(0, 16_000, 400, 160)), vec![]);
    assert_eq!(spans(frame_signal(10, 0, 400, 160)), vec![]);
    assert_eq!(spans(frame_signal(400, 16_000, 400, 160)), vec![(0, 400)]);
    assert_eq!(spans(frame_signal(560, 16_000, 400, 160)), vec![(0, 400), (160, 560)]);
    assert_eq!(
        spans(frame_signal(600, 16_000, 400, 160)),
        vec![(0, 400), (160, 560), (200, 600)]
    );
    assert_eq!(spans(regular_frame_list(10, 4, 3)), vec![(0, 4), (3, 7), (6, 10)]);
    assert_eq!(frame_overlaps(6, &frame_signal(6, 1, 4, 2)), vec![1, 1, 2, 2, 1, 1]);
}

#[test]
fn samples_are_clipped_to_one() {
    let clipped = unit_samples(&held_all(&[-3.0, -1.0, 0.25, 1.0, f32::INFINITY]));
    assert_eq!(numbers(&clipped), vec![-1.0, -1.0, 0.25, 1.0, 1.0]);
}

#[test]
fn speech_clips_are_checked() {
    let ambient = clip(RecordingTakeKind::AmbientSilence, "a.wav", 1);
    assert_eq!(check_speech_clip(&ambient).err(), Some(SpeakerError::AmbientRecording));
    let free = clip(RecordingTakeKind::FreeSpeech, "f.wav", 1);
    assert!(check_speech_clip(&free).is_ok());
    assert!(is_ambient_recording_path("x/AMBIENT_Silence.wav"));
    assert!(!is_ambient_recording_path("x/ambient-silence.wav"));
}

#[test]
fn embeddings_need_speech() {
    let manifest = TrainingRecordingManifest::new(2);
    assert!(speech_recordings(&manifest).is_empty());
    assert!(matches!(
        SpeakerEngine::extract_manifest_embeddings(&manifest, Vec::new()),
        Err(ExtractionError::Speaker { error: SpeakerError::NoSpeechRecording })
    ));
    let paths = vec!["ambient_silence.wav".to_owned()];
    assert!(matches!(
        SpeakerEngine::extract_reference_embeddings(&paths, Vec::new()),
        Err(ExtractionError::Speaker { error: SpeakerError::NoSpeechSource })
    ));
    assert_eq!(
        extract_embedding_vector(&[0.1; 500], 0, -40.0).err(),
        Some(SpeakerError::NoSampleRate)
    );
    assert_eq!(
        extract_embedding_vector(&[0.1; 399], 16_000, -40.0).err(),
        Some(SpeakerError::ClipTooShort)
    );
}

#[test]
fn one_recording_that_cannot_be_heard_voids_all() {
    let mut manifest = TrainingRecordingManifest::new(2);
    manifest.register(clip(RecordingTakeKind::FixedPrompt { index: 1 }, "p.wav", 1));
    manifest.register(clip(RecordingTakeKind::FreeSpeech, "f.wav", 1));
    let voice = |mark: f32| ExtractedVoice { vector: vec![held(mark); 8], active_frame_count: 4 };
    let failed = SpeakerEngine::extract_manifest_embeddings(
        &manifest,
        vec![Ok(voice(0.1)), Err("f.wav is gone".to_owned())],
    )
    .expect_err("the free speech is gone");
    assert_eq!(failed.message(), "f.wav is gone");
    manifest.fixed_prompts[0] = Some(clip(RecordingTakeKind::AmbientSilence, "a.wav", 1));
    let ambient = SpeakerEngine::extract_manifest_embeddings(
        &manifest,
        vec![Err("never read".to_owned())],
    )
    .expect_err("an ambient take in the place of a prompt");
    assert!(matches!(
        ambient,
        ExtractionError::Speaker { error: SpeakerError::AmbientRecording }
    ));

    let paths =
        vec!["one.wav".to_owned(), "ambient_silence.wav".to_owned(), "two.wav".to_owned()];
    let heard = |mark: f32| Ok(vec![held(mark); 8]);
    let failed = SpeakerEngine::extract_reference_embeddings(
        &paths,
        vec![Err("one.wav is gone".to_owned())],
    )
    .expect_err("the first recording is gone");
    assert_eq!(failed.message(), "one.wav is gone");
    let vectors =
        SpeakerEngine::extract_reference_embeddings(&paths, vec![heard(0.1), heard(0.2)])
            .expect("both were heard");
    assert_eq!(vectors, vec![vec![held(0.1); 8], vec![held(0.2); 8]]);

    let mut profile = profile_with(0.9, None);
    profile.source_recordings = paths;
    let engine = filter_for(&profile, vec![heard(0.1), heard(0.2)]).expect("usable profile");
    assert_eq!(engine.reference_embeddings.len(), 2);
    let engine = filter_for(&profile, vec![heard(0.1), Err("gone".to_owned())])
        .expect("usable without references");
    assert!(engine.reference_embeddings.is_empty());
}

#[test]
fn embeddings_are_checked_before_they_are_combined() {
    let embedding = |kind: RecordingTakeKind, dimension: usize| SpeakerEmbedding {
        kind,
        vector: vec![held(0.1); dimension],
        active_frame_count: 1,
    };
    let free = RecordingTakeKind::FreeSpeech;
    let check = |list: Vec<SpeakerEmbedding>| SpeakerEngine::check_embeddings(&list).err();
    assert_eq!(check(Vec::new()), Some(SpeakerError::NothingToAggregate));
    assert_eq!(
        check(vec![embedding(free, 3), embedding(RecordingTakeKind::AmbientSilence, 8)]),
        Some(SpeakerError::AmbientAmongEmbeddings)
    );
    assert_eq!(
        check(vec![embedding(free, 3)]),
        Some(SpeakerError::UnexpectedDimension { dimension: 3 })
    );
    assert_eq!(
        check(vec![embedding(free, 8), embedding(free, 3)]),
        Some(SpeakerError::DimensionsDiffer)
    );
    assert_eq!(check(vec![embedding(free, 8)]), None);
    assert_eq!(
        SpeakerError::UnexpectedDimension { dimension: 3 }.message(),
        "unexpected speaker embedding dimension 3"
    );
}

#[test]
fn suggestions_stay_in_their_range() {
    let suggest = |candidate: f32, mean_similarity: f32| {
        let embeddings = vec![SpeakerEmbedding {
            kind: RecordingTakeKind::FreeSpeech,
            vector: vec![held(0.1); 8],
            active_frame_count: 0,
        }];
        assert_eq!(embedding_weight(&embeddings[0]), 1);
        let numbers = AggregateNumbers {
            centroid: vec![held(0.1); 8],
            mean_similarity: held(mean_similarity),
            dispersion: held(-0.5),
            threshold_candidate: held(candidate),
        };
        let profile = SpeakerEngine::aggregate_embeddings(embeddings, numbers).expect("profile");
        assert_eq!(number(profile.dispersion), 0.0);
        number(profile.suggested_threshold)
    };
    assert_eq!(suggest(0.1, 0.9), 0.45);
    assert_eq!(suggest(0.8, 0.9), 0.8);
    assert_eq!(suggest(1.5, 0.99), 0.95);
    assert_eq!(suggest(0.8, 0.7), 0.7);
    assert_eq!(number(counted_spread(held(0.01))), 0.04);
    assert_eq!(number(counted_spread(held(0.1))), 0.1);
    assert_eq!(number(least_similarity(&Vec::new())), f32::INFINITY);
    assert_eq!(number(least_similarity(&held_all(&[0.9, 0.2, 0.4]))), 0.2);
}

#[test]
fn frames_are_selected_by_level() {
    let levels = held_all(&[-10.0, -50.0, -42.0, -42.5, -20.0]);
    assert_eq!(select_active_frames(&levels, held(-42.0)), vec![0, 2, 4]);
    assert_eq!(select_active_frames(&levels, held(-15.0)), vec![0, 4, 2]);
    assert_eq!(select_active_frames(&held_all(&[-1.0, 0.0]), held(-0.5)), vec![1, 0]);
    assert_eq!(
        strongest_positions(&held_all(&[1.0, f32::NAN, 1.0, 2.0]), 3),
        vec![1, 3, 0]
    );
}

#[test]
fn sign_changes_are_counted() {
    assert_eq!(zero_crossings(&held_all(&[0.5, -0.5, -0.1, 0.0, -0.0, 0.3])), 2);
    assert_eq!(zero_crossings(&held_all(&[0.5])), 0);
    assert_eq!(zero_crossings(&Vec::new()), 0);
}

#[test]
fn the_first_of_the_strongest_lags_counts() {
    assert_eq!(strongest_lag(&held_all(&[0.0, 0.5, 0.7, 0.7])), Some(2));
    assert_eq!(strongest_lag(&held_all(&[0.0, -1.0, f32::NAN])), None);
    assert_eq!(strongest_lag(&Vec::new()), None);
}

#[test]
fn the_best_references_count() {
    let top = top_reference_scores(&held_all(&[0.2, 0.9, 0.4, 0.9, 0.1]));
    assert_eq!(numbers(&top), vec![0.9, 0.9, 0.4]);
    assert_eq!(numbers(&top_reference_scores(&held_all(&[0.3]))), vec![0.3]);
}

#[test]
fn smoothing_goes_down_faster_than_up() {
    assert_eq!(smoothing_rate(held(0.1), held(0.5)), SmoothingRate::Attack);
    assert_eq!(smoothing_rate(held(0.5), held(0.5)), SmoothingRate::Release);
    assert_eq!(smooth_gains(&[1.0, 0.0, 0.0], None), vec![1.0, 0.39999998, 0.15999998]);
}

#[test]
fn modes_decide_what_runs() {
    use_stage(InferenceMode::Passthrough, false, Ok(RuntimeStage::RunningPassthrough));
    use_stage(InferenceMode::BasicFilter, true, Ok(RuntimeStage::RunningBasicFilter));
    use_stage(InferenceMode::BasicFilter, false, Err(StartError::NoProfile));
    use_stage(InferenceMode::StrongIsolation, true, Err(StartError::NotAvailable));
    assert_eq!(
        StartError::NoProfile.message(),
        "Basic Filter 启动前需要先加载默认 speaker profile"
    );
    assert_eq!(RuntimeStage::RunningBasicFilter.label(), "Running (Basic Filter)");
}

fn use_stage(mode: InferenceMode, has_profile: bool, expected: Result<RuntimeStage, StartError>) {
    assert_eq!(stage_for_mode(mode, has_profile), expected);
}

#[test]
fn output_is_ready_after_the_priming_frames() {
    let mut metrics = RuntimeMetricsSnapshot::default();
    metrics.successful_output_frames = 100;
    assert!(!metrics.is_output_ready(RuntimeStage::RunningPassthrough, 100));
    assert!(metrics.is_output_ready(RuntimeStage::RunningPassthrough, 99));
    assert!(!metrics.is_output_ready(RuntimeStage::RunningBasicFilter, 99));
    metrics.processed_output_chunks = 1;
    assert!(metrics.is_output_ready(RuntimeStage::RunningBasicFilter, 99));
}
