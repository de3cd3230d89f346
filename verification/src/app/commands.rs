//! What the user can ask for.

use crate::profile::record::RecordingTakeKind;
use vstd::prelude::*;

verus! {

/// Something that the user asked for.
#[derive(Debug, Clone, Copy, PartialEq, Eq, Structural)]
pub enum AppCommand {
    RefreshAudioDevices,
    UseDetectedVirtualCableOutput,
    StartRealtime,
    StopRealtime,
    RunOfflineBasicFilter,
    AdvanceTrainingStep,
    RetryPreviousPrompt,
    RestartTrainingFlow,
    StartReviewRerecord { kind: RecordingTakeKind },
    PreviewRecordedClip { kind: RecordingTakeKind },
    LoadDetectedTrainingRecordings,
    OverwriteDetectedTrainingRecordings,
}

} // verus!
