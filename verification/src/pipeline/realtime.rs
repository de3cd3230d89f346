//! The realtime links: what runs, and what is told of it.

use crate::config::settings::InferenceMode;
use crate::util::float32::Float32;
use vstd::prelude::*;

verus! {

/// The encoding of the level of silence in dBFS, 20 log10 of the machine epsilon:
/// about -138.47.
pub const SILENCE_DBFS_BITS: u32 = 0xC30A_794B;

/// What runs.
#[derive(Debug, Clone, Copy, PartialEq, Eq, Structural)]
pub enum RuntimeStage {
    Stopped,
    RunningPassthrough,
    RunningBasicFilter,
}

impl RuntimeStage {
    pub open spec fn spec_label(self) -> Seq<char> {
        match self {
            RuntimeStage::Stopped => "Stopped"@,
            RuntimeStage::RunningPassthrough => "Running (Passthrough)"@,
            RuntimeStage::RunningBasicFilter => "Running (Basic Filter)"@,
        }
    }

    pub fn label(self) -> (r: &'static str)
        ensures
            r@ == self.spec_label(),
    {
        match self {
            RuntimeStage::Stopped => "Stopped",
            RuntimeStage::RunningPassthrough => "Running (Passthrough)",
            RuntimeStage::RunningBasicFilter => "Running (Basic Filter)",
        }
    }
}

/// Between which devices a link runs, and how.
#[derive(Debug)]
pub struct RuntimeFormatSummary {
    pub input_device_name: String,
    pub output_device_name: String,
    pub sample_rate_hz: u32,
    pub input_channels: u16,
    pub output_channels: u16,
    pub input_sample_format: String,
    pub output_sample_format: String,
}

impl Clone for RuntimeFormatSummary {
    fn clone(&self) -> (r: Self)
        ensures
            r == *self,
    {
        RuntimeFormatSummary {
            input_device_name: self.input_device_name.clone(),
            output_device_name: self.output_device_name.clone(),
            sample_rate_hz: self.sample_rate_hz,
            input_channels: self.input_channels,
            output_channels: self.output_channels,
            input_sample_format: self.input_sample_format.clone(),
            output_sample_format: self.output_sample_format.clone(),
        }
    }
}

/// How a link is doing.
#[derive(Debug, Clone, Copy, PartialEq, Eq, Structural)]
pub struct RuntimeMetricsSnapshot {
    pub input_peak_dbfs: Float32,
    pub output_peak_dbfs: Float32,
    pub dropped_input_frames: u64,
    pub missing_output_frames: u64,
    pub successful_output_frames: u64,
    pub processed_output_chunks: u64,
    pub current_similarity: Float32,
    pub current_frame_gain: Float32,
    pub last_chunk_active_frames: u64,
    pub last_chunk_analyzed_frames: u64,
}

impl RuntimeMetricsSnapshot {
    /// A link that has not started: silence, and nothing counted.
    pub open spec fn spec_default() -> RuntimeMetricsSnapshot {
        RuntimeMetricsSnapshot {
            input_peak_dbfs: Float32 { bits: SILENCE_DBFS_BITS },
            output_peak_dbfs: Float32 { bits: SILENCE_DBFS_BITS },
            dropped_input_frames: 0,
            missing_output_frames: 0,
            successful_output_frames: 0,
            processed_output_chunks: 0,
            current_similarity: Float32 { bits: 0 },
            current_frame_gain: Float32 { bits: 0 },
            last_chunk_active_frames: 0,
            last_chunk_analyzed_frames: 0,
        }
    }

    /// Whether the output has played more than the silence at the start. A
    /// filtered link must have filtered a chunk, too.
    pub fn is_output_ready(&self, stage: RuntimeStage, priming_output_frames: u64) -> (r: bool)
        ensures
            r == (self.successful_output_frames > priming_output_frames && match stage {
                RuntimeStage::Stopped => false,
                RuntimeStage::RunningPassthrough => true,
                RuntimeStage::RunningBasicFilter => self.processed_output_chunks > 0,
            }),
    {
        match stage {
            RuntimeStage::Stopped => false,
            RuntimeStage::RunningPassthrough => self.successful_output_frames
                > priming_output_frames,
            RuntimeStage::RunningBasicFilter => self.processed_output_chunks > 0
                && self.successful_output_frames > priming_output_frames,
        }
    }
}

impl Default for RuntimeMetricsSnapshot {
    fn default() -> (r: Self)
        ensures
            r == RuntimeMetricsSnapshot::spec_default(),
    {
        RuntimeMetricsSnapshot {
            input_peak_dbfs: Float32 { bits: SILENCE_DBFS_BITS },
            output_peak_dbfs: Float32 { bits: SILENCE_DBFS_BITS },
            dropped_input_frames: 0,
            missing_output_frames: 0,
            successful_output_frames: 0,
            processed_output_chunks: 0,
            current_similarity: Float32 { bits: 0 },
            current_frame_gain: Float32 { bits: 0 },
            last_chunk_active_frames: 0,
            last_chunk_analyzed_frames: 0,
        }
    }
}

/// Why a mode does not run.
#[derive(Debug, Clone, Copy, PartialEq, Eq, Structural)]
pub enum StartError {
    NoProfile,
    NotAvailable,
}

impl StartError {
    pub open spec fn spec_message(self) -> Seq<char> {
        match self {
            StartError::NoProfile => "Basic Filter 启动前需要先加载默认 speaker profile"@,
            StartError::NotAvailable => {
                "Strong Isolation 仍是预留模式，当前尚未接入实时链路"@
            },
        }
    }

    /// The error in words.
    pub fn message(self) -> (r: &'static str)
        ensures
            r@ == self.spec_message(),
    {
        match self {
            StartError::NoProfile => "Basic Filter 启动前需要先加载默认 speaker profile",
            StartError::NotAvailable => "Strong Isolation 仍是预留模式，当前尚未接入实时链路",
        }
    }
}

/// What is to run in a mode: filtering needs a profile, and isolation is not
/// available.
pub open spec fn spec_stage_for_mode(mode: InferenceMode, has_profile: bool) -> Result<
    RuntimeStage,
    StartError,
> {
    match mode {
        InferenceMode::Passthrough => Ok(RuntimeStage::RunningPassthrough),
        InferenceMode::BasicFilter => if has_profile {
            Ok(RuntimeStage::RunningBasicFilter)
        } else {
            Err(StartError::NoProfile)
        },
        InferenceMode::StrongIsolation => Err(StartError::NotAvailable),
    }
}

/// What is to run in a mode.
pub fn stage_for_mode(mode: InferenceMode, has_profile: bool) -> (r: Result<
    RuntimeStage,
    StartError,
>)
    ensures
        r == spec_stage_for_mode(mode, has_profile),
{
    match mode {
        InferenceMode::Passthrough => Ok(RuntimeStage::RunningPassthrough),
        InferenceMode::BasicFilter => if has_profile {
            Ok(RuntimeStage::RunningBasicFilter)
        } else {
            Err(StartError::NoProfile)
        },
        InferenceMode::StrongIsolation => Err(StartError::NotAvailable),
    }
}

/// Passthrough runs with or without a profile, filtering with a profile only, and isolation never;
/// what runs is never another mode's stage.
pub proof fn modes_run_their_own_stage(mode: InferenceMode, has_profile: bool)
    ensures
        spec_stage_for_mode(mode, has_profile) is Ok <==> mode == InferenceMode::Passthrough || (
        mode == InferenceMode::BasicFilter && has_profile),
        spec_stage_for_mode(mode, has_profile) == Ok::<RuntimeStage, StartError>(
            RuntimeStage::RunningBasicFilter,
        ) <==> mode == InferenceMode::BasicFilter && has_profile,
        spec_stage_for_mode(mode, has_profile) == Ok::<RuntimeStage, StartError>(
            RuntimeStage::RunningPassthrough,
        ) <==> mode == InferenceMode::Passthrough,
        spec_stage_for_mode(mode, has_profile) == Err::<RuntimeStage, StartError>(
            StartError::NoProfile,
        ) <==> mode == InferenceMode::BasicFilter && !has_profile,
{
}

} // verus!
