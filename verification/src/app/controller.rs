//! What the program does when something is asked for or has happened.
//!
//! Streams, files and threads belong to the program around this library. It asks
//! here whether something may begin, does it, and reports what came of it.

use crate::app::state::AppState;
use crate::app::training::TrainingStep;
use crate::audio::devices::DeviceInventory;
use crate::config::settings::{AppSettings, InferenceMode, UiPage};
use crate::pipeline::filter::OfflineBasicFilterMetrics;
use crate::pipeline::realtime::{RuntimeFormatSummary, RuntimeMetricsSnapshot, RuntimeStage};
use crate::pipeline::realtime;
use crate::profile::quality::QualityReport;
use crate::profile::record::{RecordedClip, RecordingTakeKind, TrainingRecordingManifest};
use crate::profile::record;
use crate::profile::storage::ProfileSummary;
use crate::util::float32::Float32;
use crate::util::path;
use crate::util::text;
use vstd::prelude::*;

verus! {

/// The state of the program and which of its streams are open.
#[derive(Debug)]
pub struct AppController {
    pub state: AppState,
    /// Whether the realtime link runs.
    pub runtime_running: bool,
    /// Whether a training recording is being made.
    pub recording: bool,
    /// Whether a recording is being played back.
    pub previewing: bool,
}

/// Whether an optional text reads like this.
pub open spec fn says(message: Option<String>, words: Seq<char>) -> bool {
    message matches Some(said) && said@ == words
}

/// The settings once the output of the virtual cable is preferred, where there is
/// one.
pub open spec fn preferring_cable(
    settings: AppSettings,
    inventory: DeviceInventory,
) -> AppSettings {
    match inventory.virtual_cable_route {
        Some(route) => AppSettings {
            selected_output_device: Some(route.playback_device_name),
            ..settings
        },
        None => settings,
    }
}

/// Prefers the output of the virtual cable, where there is one.
pub fn prefer_detected_virtual_cable_output(
    settings: &mut AppSettings,
    inventory: &DeviceInventory,
)
    ensures
        *final(settings) == preferring_cable(*old(settings), *inventory),
{
    if let Some(route) = &inventory.virtual_cable_route {
        settings.selected_output_device = Some(route.playback_device_name.clone());
    }
}

/// A state in which nothing is played back.
pub open spec fn without_preview(state: AppState) -> AppState {
    AppState { previewing_recording_kind: None, ..state }
}

/// A state in which no link runs.
pub open spec fn without_runtime(state: AppState) -> AppState {
    AppState {
        runtime_stage: RuntimeStage::Stopped,
        runtime_metrics: RuntimeMetricsSnapshot::spec_default(),
        runtime_format: None,
        ..state
    }
}

/// A state in which nothing is shown of a recording being made.
pub open spec fn without_recording_feedback(state: AppState) -> AppState {
    AppState {
        training_recording_active: false,
        training_input_level_linear: Float32 { bits: 0 },
        ..state
    }
}

/// A state without a judgement of the recordings.
pub open spec fn without_quality_report(state: AppState) -> AppState {
    AppState { training_quality_report: None, last_training_quality_error: None, ..state }
}

/// What a finished or discarded recording leaves behind as an error: the new one
/// where it failed.
pub open spec fn failure_or(
    outcome: Option<Result<(), String>>,
    before: Option<String>,
) -> Option<String> {
    match outcome {
        Some(Err(message)) => Some(message),
        _ => before,
    }
}

impl AppController {
    /// The microphone has one user at most, and what is shown agrees with what is
    /// open.
    pub open spec fn well_formed(self) -> bool {
        &&& !(self.runtime_running && self.recording)
        &&& self.state.runtime_stage == RuntimeStage::Stopped <==> !self.runtime_running
        &&& self.state.training_recording_active ==> self.recording
        &&& self.state.previewing_recording_kind is Some ==> self.previewing
    }

    /// A program in which nothing is open yet.
    pub fn new(state: AppState) -> (r: Self)
        requires
            state.runtime_stage == RuntimeStage::Stopped,
            !state.training_recording_active,
            state.previewing_recording_kind is None,
        ensures
            r == (AppController {
                state,
                runtime_running: false,
                recording: false,
                previewing: false,
            }),
            r.well_formed(),
    {
        AppController { state, runtime_running: false, recording: false, previewing: false }
    }

    // -----------------------------------------------------------------------
    // Settings and devices
    // -----------------------------------------------------------------------
    /// The settings were saved, or were not.
    pub fn settings_persisted(&mut self, failure: Option<String>)
        ensures
            *final(self) == (AppController {
                state: AppState { last_persist_error: failure, ..old(self).state },
                ..*old(self)
            }),
            old(self).well_formed() ==> final(self).well_formed(),
    {
        self.state.last_persist_error = failure;
    }

    /// The devices were listed anew.
    pub fn devices_refreshed(&mut self, inventory: DeviceInventory, failure: Option<String>)
        ensures
            *final(self) == (AppController {
                state: AppState {
                    settings: preferring_cable(old(self).state.settings, inventory),
                    device_inventory: inventory,
                    last_device_error: failure,
                    ..old(self).state
                },
                ..*old(self)
            }),
            old(self).well_formed() ==> final(self).well_formed(),
    {
        prefer_detected_virtual_cable_output(&mut self.state.settings, &inventory);
        self.state.device_inventory = inventory;
        self.state.last_device_error = failure;
    }

    /// Switches the output to the virtual cable, where there is one.
    pub fn use_detected_virtual_cable_output(&mut self)
        ensures
            *final(self) == (AppController {
                state: AppState {
                    settings: preferring_cable(
                        old(self).state.settings,
                        old(self).state.device_inventory,
                    ),
                    ..old(self).state
                },
                ..*old(self)
            }),
            old(self).well_formed() ==> final(self).well_formed(),
    {
        prefer_detected_virtual_cable_output(
            &mut self.state.settings,
            &self.state.device_inventory,
        );
    }

    // -----------------------------------------------------------------------
    // The realtime link
    // -----------------------------------------------------------------------
    /// Whether a link may start. It may not while a training recording has the
    /// microphone; otherwise playback and a link that runs are closed first.
    pub fn start_passthrough(&mut self) -> (r: bool)
        ensures
            r == !old(self).recording,
            r ==> *final(self) == (AppController {
                state: without_runtime(without_preview(old(self).state)),
                runtime_running: false,
                recording: false,
                previewing: false,
            }),
            !r ==> *final(self) == (AppController {
                state: AppState {
                    last_runtime_error: final(self).state.last_runtime_error,
                    ..old(self).state
                },
                ..*old(self)
            }) && says(
                final(self).state.last_runtime_error,
                "训练录音正在占用麦克风，请先完成或退出当前训练录音步骤。"@,
            ),
            old(self).well_formed() ==> final(self).well_formed(),
    {
        if self.recording {
            self.state.last_runtime_error = Some(
                "训练录音正在占用麦克风，请先完成或退出当前训练录音步骤。".to_owned(),
            );
            return false;
        }
        self.stop_training_preview();
        self.stop_passthrough();
        true
    }

    /// Decides what is to run once the link is asked for: what the chosen mode
    /// asks for. Nothing runs while a training recording has the microphone, nor in
    /// a mode that cannot run; why is told.
    pub fn start_realtime(&mut self, has_profile: bool) -> (r: Option<RuntimeStage>)
        ensures
            old(self).starts_as(has_profile, *final(self), r),
            old(self).well_formed() ==> final(self).well_formed(),
    {
        if !self.start_passthrough() {
            return None;
        }
        match realtime::stage_for_mode(self.state.settings.inference_mode, has_profile) {
            Ok(stage) => Some(stage),
            Err(error) => {
                self.state.last_runtime_error = Some(error.message().to_owned());
                None
            },
        }
    }

    /// Whether `after` and the stage `r` are what asking for the link comes to.
    pub open spec fn starts_as(
        self,
        has_profile: bool,
        after: AppController,
        r: Option<RuntimeStage>,
    ) -> bool {
        let closed = AppController {
            state: without_runtime(without_preview(self.state)),
            runtime_running: false,
            recording: false,
            previewing: false,
        };
        if self.recording {
            &&& r is None
            &&& after == self.with_runtime_error(after.state.last_runtime_error)
            &&& says(
                after.state.last_runtime_error,
                "训练录音正在占用麦克风，请先完成或退出当前训练录音步骤。"@,
            )
        } else {
            match realtime::spec_stage_for_mode(self.state.settings.inference_mode, has_profile) {
                Ok(stage) => r == Some(stage) && after == closed,
                Err(error) => {
                    &&& r is None
                    &&& after == closed.with_runtime_error(after.state.last_runtime_error)
                    &&& says(after.state.last_runtime_error, error.spec_message())
                },
            }
        }
    }

    /// The program with another word on the link.
    pub open spec fn with_runtime_error(self, error: Option<String>) -> AppController {
        AppController {
            state: AppState { last_runtime_error: error, ..self.state },
            ..self
        }
    }

    /// The program once a link runs.
    pub open spec fn running(
        self,
        stage: RuntimeStage,
        format: RuntimeFormatSummary,
        metrics: RuntimeMetricsSnapshot,
    ) -> AppController {
        AppController {
            state: AppState {
                runtime_stage: stage,
                runtime_format: Some(format),
                runtime_metrics: metrics,
                last_runtime_error: None,
                ..self.state
            },
            runtime_running: true,
            ..self
        }
    }

    /// The link has started.
    pub fn realtime_started(
        &mut self,
        stage: RuntimeStage,
        format: RuntimeFormatSummary,
        metrics: RuntimeMetricsSnapshot,
    )
        requires
            !old(self).recording,
            stage != RuntimeStage::Stopped,
        ensures
            *final(self) == old(self).running(stage, format, metrics),
            old(self).well_formed() ==> final(self).well_formed(),
    {
        self.state.runtime_format = Some(format);
        self.state.runtime_metrics = metrics;
        self.state.runtime_stage = stage;
        self.state.last_runtime_error = None;
        self.runtime_running = true;
    }

    /// The link could not be started.
    pub fn realtime_failed(&mut self, message: String)
        ensures
            *final(self) == (AppController {
                state: AppState {
                    runtime_stage: RuntimeStage::Stopped,
                    last_runtime_error: Some(message),
                    ..old(self).state
                },
                runtime_running: false,
                ..*old(self)
            }),
            old(self).well_formed() ==> final(self).well_formed(),
    {
        self.state.runtime_stage = RuntimeStage::Stopped;
        self.state.last_runtime_error = Some(message);
        self.runtime_running = false;
    }

    /// Closes the link.
    pub fn stop_passthrough(&mut self)
        ensures
            *final(self) == (AppController {
                state: without_runtime(old(self).state),
                runtime_running: false,
                ..*old(self)
            }),
            old(self).well_formed() ==> final(self).well_formed(),
    {
        self.runtime_running = false;
        self.state.runtime_stage = RuntimeStage::Stopped;
        self.state.runtime_metrics = RuntimeMetricsSnapshot::default();
        self.state.runtime_format = None;
    }

    /// The program once it is seen how the link is doing. What runs stays what was
    /// started.
    pub open spec fn synced(
        self,
        running: Option<(RuntimeMetricsSnapshot, RuntimeFormatSummary)>,
    ) -> AppController {
        match running {
            Some((metrics, format)) => AppController {
                state: AppState {
                    runtime_metrics: metrics,
                    runtime_format: Some(format),
                    ..self.state
                },
                ..self
            },
            None => self,
        }
    }

    /// Takes over how the link is doing; it is looked at where it runs.
    pub fn sync_runtime_state(
        &mut self,
        running: Option<(RuntimeMetricsSnapshot, RuntimeFormatSummary)>,
    )
        requires
            running is Some <==> old(self).runtime_running,
        ensures
            *final(self) == old(self).synced(running),
            old(self).well_formed() ==> final(self).well_formed(),
    {
        if let Some((metrics, format)) = running {
            self.state.runtime_metrics = metrics;
            self.state.runtime_format = Some(format);
        }
    }

    // -----------------------------------------------------------------------
    // Making a training recording
    // -----------------------------------------------------------------------
    /// The take to record now, if any. Nothing begins in a step without a take,
    /// while a recording is being made, or while the link has the microphone.
    pub open spec fn take_to_record(self) -> Option<RecordingTakeKind> {
        if self.recording || self.runtime_running {
            None
        } else {
            self.state.training_step.spec_take()
        }
    }

    /// Decides whether a recording begins with the current step.
    pub fn start_training_recording_for_current_step(&mut self) -> (r: Option<RecordingTakeKind>)
        ensures
            r == old(self).take_to_record(),
            ({
                let before = old(self).state;
                if before.training_step.spec_take() is None {
                    *final(self) == (AppController {
                        state: without_recording_feedback(before),
                        ..*old(self)
                    })
                } else if old(self).recording || !old(self).runtime_running {
                    *final(self) == *old(self)
                } else {
                    *final(self) == (AppController {
                        state: AppState {
                            last_training_recording_error: final(self).state.last_training_recording_error,
                            ..without_recording_feedback(before)
                        },
                        ..*old(self)
                    }) && says(
                        final(self).state.last_training_recording_error,
                        "训练录音开始前请先停止设备页中的 Passthrough。"@,
                    )
                }
            }),
            old(self).well_formed() ==> final(self).well_formed(),
    {
        let kind = match self.state.training_step.recording_take_kind() {
            Some(kind) => kind,
            None => {
                self.reset_training_recording_feedback();
                return None;
            },
        };
        if self.recording {
            return None;
        }
        if self.runtime_running {
            self.state.last_training_recording_error = Some(
                "训练录音开始前请先停止设备页中的 Passthrough。".to_owned(),
            );
            self.reset_training_recording_feedback();
            return None;
        }
        Some(kind)
    }

    /// The recording has begun.
    pub fn training_recording_started(&mut self)
        requires
            !old(self).runtime_running,
        ensures
            *final(self) == (AppController {
                state: AppState {
                    last_training_recording_error: None,
                    training_recording_active: true,
                    training_input_level_linear: Float32 { bits: 0 },
                    ..old(self).state
                },
                recording: true,
                ..*old(self)
            }),
            old(self).well_formed() ==> final(self).well_formed(),
    {
        self.recording = true;
        self.state.last_training_recording_error = None;
        self.state.training_recording_active = true;
        self.state.training_input_level_linear = Float32 { bits: 0 };
    }

    /// The recording could not begin.
    pub fn training_recording_failed(&mut self, message: String)
        ensures
            *final(self) == (AppController {
                state: AppState {
                    last_training_recording_error: Some(message),
                    ..without_recording_feedback(old(self).state)
                },
                ..*old(self)
            }),
            old(self).well_formed() ==> final(self).well_formed(),
    {
        self.state.last_training_recording_error = Some(message);
        self.reset_training_recording_feedback();
    }

    /// The recording that was being made, if any, was ended, and gave a clip or did
    /// not.
    pub fn finish_current_training_recording(
        &mut self,
        outcome: Option<Result<RecordedClip, String>>,
    )
        requires
            outcome is Some <==> old(self).recording,
        ensures
            !final(self).recording,
            final(self).runtime_running == old(self).runtime_running,
            final(self).previewing == old(self).previewing,
            final(self).state == without_recording_feedback(
                AppState {
                    training_recordings: final(self).state.training_recordings,
                    last_training_recording_error: match outcome {
                        None => old(self).state.last_training_recording_error,
                        Some(Ok(_)) => None,
                        Some(Err(message)) => Some(message),
                    },
                    ..old(self).state
                },
            ),
            match outcome {
                Some(Ok(clip)) => {
                    let before = old(self).state.training_recordings;
                    let after = final(self).state.training_recordings;
                    &&& after.fixed_prompts@.len() == before.fixed_prompts@.len()
                    &&& clip.kind.is_expected(before.fixed_prompts@.len()) ==> after.slot(
                        clip.kind,
                    ) == Some(clip)
                    &&& forall|kind: RecordingTakeKind|
                        kind != clip.kind || !kind.is_expected(before.fixed_prompts@.len())
                            ==> #[trigger] after.slot(kind) == before.slot(kind)
                },
                _ => final(self).state.training_recordings
                    == old(self).state.training_recordings,
            },
            old(self).well_formed() ==> final(self).well_formed(),
    {
        self.recording = false;
        match outcome {
            None => {},
            Some(Ok(clip)) => {
                self.state.training_recordings.register(clip);
                self.state.last_training_recording_error = None;
            },
            Some(Err(message)) => {
                self.state.last_training_recording_error = Some(message);
            },
        }
        self.reset_training_recording_feedback();
    }

    /// The recording that was being made, if any, was thrown away.
    pub fn discard_current_training_recording(&mut self, outcome: Option<Result<(), String>>)
        requires
            outcome is Some <==> old(self).recording,
        ensures
            *final(self) == (AppController {
                state: AppState {
                    last_training_recording_error: failure_or(
                        outcome,
                        old(self).state.last_training_recording_error,
                    ),
                    ..without_recording_feedback(old(self).state)
                },
                recording: false,
                ..*old(self)
            }),
            old(self).well_formed() ==> final(self).well_formed(),
    {
        self.recording = false;
        if let Some(Err(message)) = outcome {
            self.state.last_training_recording_error = Some(message);
        }
        self.reset_training_recording_feedback();
    }

    /// Takes over the input level of the recording that is being made.
    pub fn sync_training_recording_feedback(&mut self, level: Option<Float32>)
        requires
            level is Some <==> old(self).recording,
        ensures
            *final(self) == (AppController {
                state: match level {
                    Some(linear) => AppState {
                        training_recording_active: true,
                        training_input_level_linear: linear,
                        ..old(self).state
                    },
                    None => without_recording_feedback(old(self).state),
                },
                ..*old(self)
            }),
            old(self).well_formed() ==> final(self).well_formed(),
    {
        match level {
            Some(linear) => {
                self.state.training_recording_active = true;
                self.state.training_input_level_linear = linear;
            },
            None => {
                self.reset_training_recording_feedback();
            },
        }
    }

    fn reset_training_recording_feedback(&mut self)
        ensures
            *final(self) == (AppController {
                state: without_recording_feedback(old(self).state),
                ..*old(self)
            }),
    {
        self.state.training_recording_active = false;
        self.state.training_input_level_linear = Float32 { bits: 0 };
    }

    /// A recording that is no longer needed could not be removed.
    pub fn recording_removal_failed(&mut self, path: &str, detail: &str)
        ensures
            *final(self) == (AppController {
                state: AppState {
                    last_training_recording_error: final(self).state.last_training_recording_error,
                    ..old(self).state
                },
                ..*old(self)
            }),
            says(
                final(self).state.last_training_recording_error,
                "failed to remove discarded recording "@ + path@ + ": "@ + detail@,
            ),
            old(self).well_formed() ==> final(self).well_formed(),
    {
        let mut message = text::joined3("failed to remove discarded recording ", path, ": ");
        message.append(detail);
        self.state.last_training_recording_error = Some(message);
    }

    // -----------------------------------------------------------------------
    // The guided enrollment
    // -----------------------------------------------------------------------
    /// Whether the recording that is being made ends with the current step.
    pub fn step_is_recording(&self) -> (r: bool)
        ensures
            r == (self.state.training_step.spec_take() is Some),
    {
        self.state.training_step.is_recording_phase()
    }

    /// Goes on to the next step. The recording of the current one has ended.
    pub fn advance_training_step(&mut self)
        ensures
            *final(self) == (AppController {
                state: old(self).state.at_step(
                    old(self).state.training_step.spec_advance(old(self).state.prompt_count()),
                    final(self).state.training_step_started_at,
                ),
                ..*old(self)
            }),
            old(self).well_formed() ==> final(self).well_formed(),
    {
        self.state.advance_training_step();
    }

    /// Goes back to the previous prompt, where there is one, and hands out the
    /// recordings that are void by it: those from the prompt on that is to be
    /// prepared.
    pub fn retry_previous_prompt(&mut self) -> (r: Vec<RecordedClip>)
        ensures
            ({
                let before = old(self).state;
                let step = match before.training_step.spec_retry(before.prompt_count()) {
                    Some(back) => back,
                    None => before.training_step,
                };
                let moved = match before.training_step.spec_retry(before.prompt_count()) {
                    Some(back) => before.at_step(back, final(self).state.training_step_started_at),
                    None => before,
                };
                let slots = before.training_recordings.fixed_prompts@;
                let after = final(self).state.training_recordings;
                &&& *final(self) == (AppController {
                    state: AppState {
                        training_recordings: after,
                        ..without_quality_report(moved)
                    },
                    ..*old(self)
                })
                &&& match step {
                    TrainingStep::FixedPromptPreparation { index } => {
                        &&& r@ == record::present(record::slots_from(slots, index as int))
                            + record::at_most_one(before.training_recordings.free_speech)
                        &&& after.ambient_silence == before.training_recordings.ambient_silence
                        &&& after.free_speech is None
                        &&& after.fixed_prompts@ == Seq::new(
                            slots.len(),
                            |i: int|
                                if i < index {
                                    slots[i]
                                } else {
                                    None
                                },
                        )
                    },
                    _ => r@.len() == 0 && after == before.training_recordings,
                }
            }),
            old(self).well_formed() ==> final(self).well_formed(),
    {
        self.state.retry_previous_prompt();
        let removed = match self.state.training_step {
            TrainingStep::FixedPromptPreparation { index } => {
                self.state.training_recordings.clear_from_prompt(index)
            },
            _ => Vec::new(),
        };
        self.clear_training_quality_report();
        removed
    }

    /// Gives up all recordings and hands them out.
    pub fn give_up_recordings(&mut self) -> (r: Vec<RecordedClip>)
        ensures
            r@ == old(self).state.training_recordings.clips(),
            *final(self) == (AppController {
                state: AppState {
                    training_recordings: final(self).state.training_recordings,
                    ..old(self).state
                },
                ..*old(self)
            }),
            final(self).state.training_recordings.ambient_silence is None,
            final(self).state.training_recordings.free_speech is None,
            final(self).state.training_recordings.fixed_prompts@ == Seq::new(
                old(self).state.training_recordings.fixed_prompts@.len(),
                |i: int| None::<RecordedClip>,
            ),
            old(self).well_formed() ==> final(self).well_formed(),
    {
        self.state.training_recordings.clear_all()
    }

    /// Starts the enrollment over. Its recordings have been given up.
    pub fn restart_training_flow(&mut self)
        requires
            !old(self).recording,
        ensures
            *final(self) == (AppController {
                state: AppState {
                    last_training_recording_error: None,
                    ..without_quality_report(
                        without_recording_feedback(
                            without_preview(
                                old(self).state.at_step(
                                    TrainingStep::Preparation,
                                    final(self).state.training_step_started_at,
                                ),
                            ),
                        ),
                    )
                },
                previewing: false,
                ..*old(self)
            }),
            old(self).well_formed() ==> final(self).well_formed(),
    {
        self.stop_training_preview();
        self.state.restart_training_flow();
        self.state.last_training_recording_error = None;
        self.reset_training_recording_feedback();
        self.clear_training_quality_report();
    }

    /// Takes over the earlier recordings that were found, if any were. What was
    /// being recorded has been thrown away.
    pub fn load_detected_training_recordings(&mut self) -> (r: bool)
        requires
            !old(self).recording,
        ensures
            r == (old(self).state.startup_recording_prompt is Some),
            !r ==> *final(self) == *old(self),
            r ==> *final(self) == (AppController {
                state: AppState {
                    training_recordings: old(self).state.startup_recording_prompt->0.detected_recordings.manifest,
                    settings: AppSettings {
                        selected_page: UiPage::Training,
                        ..old(self).state.settings
                    },
                    startup_recording_prompt: None,
                    last_training_recording_error: None,
                    last_training_preview_error: None,
                    ..without_recording_feedback(
                        without_preview(
                            old(self).state.at_step(
                                TrainingStep::Review,
                                final(self).state.training_step_started_at,
                            ),
                        ),
                    )
                },
                previewing: false,
                ..*old(self)
            }),
            old(self).well_formed() ==> final(self).well_formed(),
    {
        match self.state.startup_recording_prompt.take() {
            None => false,
            Some(prompt) => {
                self.stop_training_preview();
                self.reset_training_recording_feedback();
                self.state.last_training_recording_error = None;
                self.state.last_training_preview_error = None;
                self.state.load_detected_training_recordings(prompt.detected_recordings.manifest);
                true
            },
        }
    }

    /// The directory of the earlier recordings could not be cleared.
    pub fn overwrite_failed(&mut self, message: String)
        ensures
            *final(self) == (AppController {
                state: AppState {
                    last_training_recording_error: Some(message),
                    ..old(self).state
                },
                ..*old(self)
            }),
            old(self).well_formed() ==> final(self).well_formed(),
    {
        self.state.last_training_recording_error = Some(message);
    }

    /// The earlier recordings are gone and the enrollment has been started over.
    pub fn overwrite_completed(&mut self)
        ensures
            *final(self) == (AppController {
                state: AppState {
                    settings: AppSettings {
                        selected_page: UiPage::Training,
                        ..old(self).state.settings
                    },
                    startup_recording_prompt: None,
                    startup_recording_overwrite_confirmation_clicks: 0,
                    ..old(self).state
                },
                ..*old(self)
            }),
            old(self).well_formed() ==> final(self).well_formed(),
    {
        self.state.settings.selected_page = UiPage::Training;
        self.state.dismiss_startup_recording_prompt();
    }

    /// Goes to recording one take again.
    pub fn start_review_rerecord(&mut self, kind: RecordingTakeKind)
        ensures
            *final(self) == (AppController {
                state: AppState {
                    last_training_recording_error: None,
                    ..without_quality_report(
                        without_preview(
                            old(self).state.at_step(
                                TrainingStep::ReviewRerecordPreparation { kind },
                                final(self).state.training_step_started_at,
                            ),
                        ),
                    )
                },
                previewing: false,
                ..*old(self)
            }),
            old(self).well_formed() ==> final(self).well_formed(),
    {
        self.stop_training_preview();
        self.state.begin_review_rerecord(kind);
        self.clear_training_quality_report();
        self.state.last_training_recording_error = None;
    }

    // -----------------------------------------------------------------------
    // Playing a recording back
    // -----------------------------------------------------------------------
    /// The clip to play back. Nothing is played while a recording is being made or
    /// the link runs, nor where the take is not recorded.
    pub fn start_preview_recording(&mut self, kind: RecordingTakeKind) -> (r: Option<RecordedClip>)
        ensures
            ({
                let clip = old(self).state.training_recordings.slot(kind);
                if old(self).recording || old(self).runtime_running || clip is None {
                    &&& r is None
                    &&& *final(self) == (AppController {
                        state: AppState {
                            last_training_preview_error: final(self).state.last_training_preview_error,
                            ..old(self).state
                        },
                        ..*old(self)
                    })
                    &&& says(
                        final(self).state.last_training_preview_error,
                        if old(self).recording {
                            "当前正在录音，暂时不能预览录音片段。"@
                        } else if old(self).runtime_running {
                            "预览录音前请先停止设备页中的 Passthrough。"@
                        } else {
                            "当前录音片段还不存在，无法预览。"@
                        },
                    )
                } else {
                    r == clip && *final(self) == (AppController {
                        state: without_preview(old(self).state),
                        previewing: false,
                        ..*old(self)
                    })
                }
            }),
            old(self).well_formed() ==> final(self).well_formed(),
    {
        if self.recording {
            self.state.last_training_preview_error = Some(
                "当前正在录音，暂时不能预览录音片段。".to_owned(),
            );
            return None;
        }
        if self.runtime_running {
            self.state.last_training_preview_error = Some(
                "预览录音前请先停止设备页中的 Passthrough。".to_owned(),
            );
            return None;
        }
        let clip = match self.state.training_recordings.get(kind) {
            Some(clip) => clip.clone(),
            None => {
                self.state.last_training_preview_error = Some(
                    "当前录音片段还不存在，无法预览。".to_owned(),
                );
                return None;
            },
        };
        self.stop_training_preview();
        Some(clip)
    }

    /// Playback has begun.
    pub fn preview_started(&mut self, kind: RecordingTakeKind)
        ensures
            *final(self) == (AppController {
                state: AppState {
                    previewing_recording_kind: Some(kind),
                    last_training_preview_error: None,
                    ..old(self).state
                },
                previewing: true,
                ..*old(self)
            }),
            old(self).well_formed() ==> final(self).well_formed(),
    {
        self.previewing = true;
        self.state.previewing_recording_kind = Some(kind);
        self.state.last_training_preview_error = None;
    }

    /// Playback could not begin.
    pub fn preview_failed(&mut self, message: String)
        ensures
            *final(self) == (AppController {
                state: AppState {
                    previewing_recording_kind: None,
                    last_training_preview_error: Some(message),
                    ..old(self).state
                },
                ..*old(self)
            }),
            old(self).well_formed() ==> final(self).well_formed(),
    {
        self.state.previewing_recording_kind = None;
        self.state.last_training_preview_error = Some(message);
    }

    /// Looks after playback, given whether it has come to its end.
    pub fn sync_training_preview_state(&mut self, finished: bool)
        ensures
            *final(self) == if !old(self).previewing || finished {
                AppController {
                    state: without_preview(old(self).state),
                    previewing: false,
                    ..*old(self)
                }
            } else {
                *old(self)
            },
            old(self).well_formed() ==> final(self).well_formed(),
    {
        if !self.previewing || finished {
            self.stop_training_preview();
        }
    }

    /// Closes playback.
    pub fn stop_training_preview(&mut self)
        ensures
            *final(self) == (AppController {
                state: without_preview(old(self).state),
                previewing: false,
                ..*old(self)
            }),
            old(self).well_formed() ==> final(self).well_formed(),
    {
        self.previewing = false;
        self.state.previewing_recording_kind = None;
    }

    // -----------------------------------------------------------------------
    // Quality and profile
    // -----------------------------------------------------------------------
    /// Whether the recordings are to be judged: only at the review. At any other
    /// step an earlier judgement is dropped.
    pub fn quality_check_due(&mut self) -> (r: bool)
        ensures
            r == (old(self).state.training_step == TrainingStep::Review),
            r ==> *final(self) == *old(self),
            !r ==> *final(self) == (AppController {
                state: without_quality_report(old(self).state),
                ..*old(self)
            }),
            old(self).well_formed() ==> final(self).well_formed(),
    {
        if self.state.is_review_step() {
            true
        } else {
            self.clear_training_quality_report();
            false
        }
    }

    /// The recordings were judged, or could not be.
    pub fn quality_checked(&mut self, outcome: Result<QualityReport, String>)
        ensures
            *final(self) == (AppController {
                state: match outcome {
                    Ok(report) => AppState {
                        training_quality_report: Some(report),
                        last_training_quality_error: None,
                        ..old(self).state
                    },
                    Err(message) => AppState {
                        training_quality_report: None,
                        last_training_quality_error: Some(message),
                        ..old(self).state
                    },
                },
                ..*old(self)
            }),
            old(self).well_formed() ==> final(self).well_formed(),
    {
        match outcome {
            Ok(report) => {
                self.state.training_quality_report = Some(report);
                self.state.last_training_quality_error = None;
            },
            Err(message) => {
                self.state.training_quality_report = None;
                self.state.last_training_quality_error = Some(message);
            },
        }
    }

    fn clear_training_quality_report(&mut self)
        ensures
            *final(self) == (AppController {
                state: without_quality_report(old(self).state),
                ..*old(self)
            }),
    {
        self.state.training_quality_report = None;
        self.state.last_training_quality_error = None;
    }

    /// The profile could not be made or stored; the one shown stays.
    pub fn profile_refresh_failed(&mut self, message: String)
        ensures
            *final(self) == (AppController {
                state: AppState { last_profile_error: Some(message), ..old(self).state },
                ..*old(self)
            }),
            old(self).well_formed() ==> final(self).well_formed(),
    {
        self.state.last_profile_error = Some(message);
    }

    /// The profile was stored and read back.
    pub fn profile_refreshed(&mut self, summary: Option<ProfileSummary>, failure: Option<String>)
        ensures
            *final(self) == (AppController {
                state: AppState {
                    default_profile_summary: summary,
                    last_profile_error: failure,
                    ..old(self).state
                },
                ..*old(self)
            }),
            old(self).well_formed() ==> final(self).well_formed(),
    {
        self.state.default_profile_summary = summary;
        self.state.last_profile_error = failure;
    }

    // -----------------------------------------------------------------------
    // Filtering a file
    // -----------------------------------------------------------------------
    /// The files to filter from and to. Both must be given, and they must differ,
    /// whatever their spelling.
    pub fn run_offline_basic_filter(&mut self) -> (r: Option<(String, String)>)
        ensures
            ({
                let input = text::trimmed(old(self).state.offline_basic_filter_input_path@);
                let output = text::trimmed(old(self).state.offline_basic_filter_output_path@);
                let empty = input.len() == 0 || output.len() == 0;
                if empty || path::path_key(input) == path::path_key(output) {
                    &&& r is None
                    &&& *final(self) == (AppController {
                        state: AppState {
                            last_offline_basic_filter_metrics: None,
                            last_offline_basic_filter_error: final(self).state.last_offline_basic_filter_error,
                            ..old(self).state
                        },
                        ..*old(self)
                    })
                    &&& says(
                        final(self).state.last_offline_basic_filter_error,
                        if empty {
                            "离线输入 WAV 路径和输出 WAV 路径都不能为空。"@
                        } else {
                            "离线输入 WAV 路径和输出 WAV 路径不能相同。"@
                        },
                    )
                } else {
                    &&& r matches Some(paths)
                    &&& paths.0@ == input
                    &&& paths.1@ == output
                    &&& *final(self) == *old(self)
                }
            }),
            old(self).well_formed() ==> final(self).well_formed(),
    {
        let input = text::trim_text(self.state.offline_basic_filter_input_path.as_str());
        let output = text::trim_text(self.state.offline_basic_filter_output_path.as_str());
        if input.as_str().is_empty() || output.as_str().is_empty() {
            self.state.last_offline_basic_filter_metrics = None;
            self.state.last_offline_basic_filter_error = Some(
                "离线输入 WAV 路径和输出 WAV 路径都不能为空。".to_owned(),
            );
            return None;
        }
        if path::normalized_path_key(input.as_str()) == path::normalized_path_key(
            output.as_str(),
        ) {
            self.state.last_offline_basic_filter_metrics = None;
            self.state.last_offline_basic_filter_error = Some(
                "离线输入 WAV 路径和输出 WAV 路径不能相同。".to_owned(),
            );
            return None;
        }
        Some((input, output))
    }

    /// The file was filtered, or could not be.
    pub fn offline_basic_filter_finished(
        &mut self,
        outcome: Result<OfflineBasicFilterMetrics, String>,
    )
        ensures
            *final(self) == (AppController {
                state: match outcome {
                    Ok(metrics) => AppState {
                        last_offline_basic_filter_metrics: Some(metrics),
                        last_offline_basic_filter_error: None,
                        ..old(self).state
                    },
                    Err(message) => AppState {
                        last_offline_basic_filter_metrics: None,
                        last_offline_basic_filter_error: Some(message),
                        ..old(self).state
                    },
                },
                ..*old(self)
            }),
            old(self).well_formed() ==> final(self).well_formed(),
    {
        match outcome {
            Ok(metrics) => {
                self.state.last_offline_basic_filter_metrics = Some(metrics);
                self.state.last_offline_basic_filter_error = None;
            },
            Err(message) => {
                self.state.last_offline_basic_filter_metrics = None;
                self.state.last_offline_basic_filter_error = Some(message);
            },
        }
    }
}

/// The microphone never has two users: while a training recording is made the
/// link does not run, and no recording begins while it does.
pub proof fn microphone_has_one_user(controller: AppController)
    requires
        controller.well_formed(),
    ensures
        !(controller.recording && controller.state.runtime_stage != RuntimeStage::Stopped),
        controller.state.runtime_stage != RuntimeStage::Stopped
            ==> controller.take_to_record() is None,
        controller.state.training_recording_active ==> controller.state.runtime_stage
            == RuntimeStage::Stopped,
{
}

/// What is started is what the chosen mode asks for, and it stays so however often
/// the link is looked at; a mode that cannot run leaves the link closed.
pub proof fn link_runs_in_chosen_mode(
    before: AppController,
    after: AppController,
    has_profile: bool,
    r: Option<RuntimeStage>,
    format: RuntimeFormatSummary,
    metrics: RuntimeMetricsSnapshot,
    seen: Option<(RuntimeMetricsSnapshot, RuntimeFormatSummary)>,
)
    requires
        !before.recording,
        before.starts_as(has_profile, after, r),
    ensures
        match realtime::spec_stage_for_mode(before.state.settings.inference_mode, has_profile) {
            Ok(stage) => {
                let running = after.running(r->0, format, metrics);
                &&& r == Some(stage)
                &&& running.state.runtime_stage == stage
                &&& running.synced(seen).state.runtime_stage == stage
                &&& running.synced(seen).state.runtime_format is Some
                &&& running.synced(seen).state.last_runtime_error is None
            },
            Err(error) => r is None && after.state.runtime_stage == RuntimeStage::Stopped && says(
                after.state.last_runtime_error,
                error.spec_message(),
            ),
        },
        before.state.settings.inference_mode == InferenceMode::BasicFilter && has_profile ==> r
            == Some(RuntimeStage::RunningBasicFilter),
{
}

/// Retrying keeps the ambient take and the prompts before the one that is to be
/// recorded again.
pub proof fn retry_keeps_earlier_takes(
    before: TrainingRecordingManifest,
    after: TrainingRecordingManifest,
    index: usize,
    kind: RecordingTakeKind,
)
    requires
        after.ambient_silence == before.ambient_silence,
        after.free_speech is None,
        after.fixed_prompts@ == Seq::new(
            before.fixed_prompts@.len(),
            |i: int|
                if i < index {
                    before.fixed_prompts@[i]
                } else {
                    None
                },
        ),
    ensures
        (kind is AmbientSilence || (kind matches RecordingTakeKind::FixedPrompt { index: i } && i
            < index)) ==> after.slot(kind) == before.slot(kind),
        (kind is FreeSpeech || (kind matches RecordingTakeKind::FixedPrompt { index: i } && i
            >= index)) ==> after.slot(kind) is None,
{
}

/// With a cable the output becomes its playback end; without one it stays. The other choices stay
/// in any case.
pub proof fn cable_is_preferred_as_output(settings: AppSettings, inventory: DeviceInventory)
    ensures
        ({
            let after = preferring_cable(settings, inventory);
            &&& after.selected_page == settings.selected_page
            &&& after.inference_mode == settings.inference_mode
            &&& after.selected_input_device == settings.selected_input_device
            &&& inventory.virtual_cable_route is None ==> after == settings
            &&& inventory.virtual_cable_route matches Some(route) ==> after.selected_output_device
                == Some(route.playback_device_name)
        }),
{
}

/// A stopped link shows nothing of its past, and stopping it changes neither the training nor the
/// settings.
pub proof fn stopped_link_shows_nothing(state: AppState)
    ensures
        ({
            let after = without_runtime(state);
            &&& after.runtime_stage == RuntimeStage::Stopped
            &&& after.runtime_format is None
            &&& after.runtime_metrics.dropped_input_frames == 0
            &&& after.runtime_metrics.missing_output_frames == 0
            &&& after.runtime_metrics.last_chunk_active_frames == 0
            &&& after.runtime_metrics.last_chunk_analyzed_frames == 0
            &&& after.settings == state.settings
            &&& after.training_step == state.training_step
            &&& after.training_recordings == state.training_recordings
            &&& after.training_recording_active == state.training_recording_active
            &&& after.last_runtime_error == state.last_runtime_error
        }),
{
}

/// Where nothing is recorded the meter is at rest; dropping the judgement drops its failure too;
/// ending a preview leaves all else.
pub proof fn feedback_is_dropped_alone(state: AppState)
    ensures
        ({
            let resting = without_recording_feedback(state);
            &&& !resting.training_recording_active
            &&& resting.training_input_level_linear.bits == 0
            &&& resting.training_recordings == state.training_recordings
            &&& resting.training_step == state.training_step
            &&& resting.training_quality_report == state.training_quality_report
        }),
        ({
            let unjudged = without_quality_report(state);
            &&& unjudged.training_quality_report is None
            &&& unjudged.last_training_quality_error is None
            &&& unjudged.training_recordings == state.training_recordings
            &&& unjudged.training_step == state.training_step
            &&& unjudged.training_recording_active == state.training_recording_active
        }),
        ({
            let silent = without_preview(state);
            &&& silent.previewing_recording_kind is None
            &&& silent.training_recordings == state.training_recordings
            &&& silent.training_step == state.training_step
            &&& silent.last_training_preview_error == state.last_training_preview_error
        }),
{
}

/// A failure replaces the message before it; where nothing failed, or nothing was tried, the
/// message stays.
pub proof fn failures_replace_messages(
    outcome: Option<Result<(), String>>,
    before: Option<String>,
    message: String,
)
    ensures
        outcome == Some(Err::<(), String>(message)) ==> failure_or(outcome, before) == Some(message),
        outcome is None || outcome->0 is Ok ==> failure_or(outcome, before) == before,
{
}

/// Asking for the link while a take is recorded is refused and leaves the take alone; otherwise
/// playback ends, and recordings, step and settings stay.
pub proof fn asking_for_the_link_spares_the_training(
    before: AppController,
    after: AppController,
    has_profile: bool,
    r: Option<RuntimeStage>,
)
    requires
        before.starts_as(has_profile, after, r),
    ensures
        before.recording ==> r is None && after.recording && after.state.last_runtime_error is Some,
        before.recording ==> after.state.runtime_stage == before.state.runtime_stage,
        !before.recording ==> !after.previewing && after.state.previewing_recording_kind is None,
        !before.recording ==> after.state.runtime_stage == RuntimeStage::Stopped,
        r is None ==> after.state.last_runtime_error is Some,
        r is Some ==> after.state.last_runtime_error == before.state.last_runtime_error,
        after.recording == before.recording,
        after.state.settings == before.state.settings,
        after.state.training_step == before.state.training_step,
        after.state.training_recordings == before.state.training_recordings,
        after.state.training_recording_active == before.state.training_recording_active,
{
}

/// A message says certain words exactly where there is one and it reads so.
pub proof fn messages_say_their_words(message: Option<String>, words: Seq<char>)
    ensures
        message is None ==> !says(message, words),
        message matches Some(said) ==> (says(message, words) <==> said@ == words),
{
}

} // verus!
