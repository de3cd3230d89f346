//! The state of the program.

use crate::app::commands::AppCommand;
use crate::app::training::TrainingStep;
use crate::audio::devices::DeviceInventory;
use crate::config::settings::{AppSettings, UiPage};
use crate::pipeline::filter::OfflineBasicFilterMetrics;
use crate::pipeline::realtime::{RuntimeFormatSummary, RuntimeMetricsSnapshot, RuntimeStage};
use crate::profile::quality::QualityReport;
use crate::profile::record::{EnrollmentScript, RecordingTakeKind, TrainingRecordingManifest};
use crate::profile::record;
use crate::profile::scan::DetectedTrainingRecordings;
use crate::profile::storage::{DEFAULT_PROFILE_ID, ProfileSummary};
use crate::util::float32::Float32;
use crate::util::text;
use crate::util::time;
use vstd::arithmetic::div_mod::*;
use vstd::prelude::*;

verus! {

/// How often restarting the enrollment is to be confirmed.
pub const RESTART_TRAINING_CONFIRMATION_CLICKS: u8 = 3;

/// How often retrying the previous prompt is to be confirmed.
pub const RETRY_PREVIOUS_PROMPT_CONFIRMATION_CLICKS: u8 = 3;

/// How often recording a take again is to be confirmed.
pub const REVIEW_SUMMARY_RERECORD_CONFIRMATION_CLICKS: u8 = 3;

/// How often overwriting earlier recordings is to be confirmed.
pub const STARTUP_RECORDING_OVERWRITE_CONFIRMATION_CLICKS: u8 = 3;

pub open spec fn default_input_path() -> Seq<char> {
    "profiles/"@ + DEFAULT_PROFILE_ID@ + "/recordings/free_speech.wav"@
}

pub open spec fn default_output_path() -> Seq<char> {
    "profiles/"@ + DEFAULT_PROFILE_ID@ + "/offline_outputs/free_speech_basic_filter.wav"@
}

/// The file that is filtered unless another is given.
pub fn default_offline_basic_filter_input_path() -> (r: String)
    ensures
        r@ == default_input_path(),
{
    text::joined3("profiles/", DEFAULT_PROFILE_ID, "/recordings/free_speech.wav")
}

/// The file into which is filtered unless another is given.
pub fn default_offline_basic_filter_output_path() -> (r: String)
    ensures
        r@ == default_output_path(),
{
    text::joined3(
        "profiles/",
        DEFAULT_PROFILE_ID,
        "/offline_outputs/free_speech_basic_filter.wav",
    )
}

// ---------------------------------------------------------------------------
// Confirmations
// ---------------------------------------------------------------------------
/// What one more click does to a confirmation that needs `required` of them: the
/// new count, and whether it is confirmed. A confirmed one starts over.
pub open spec fn next_clicks(clicks: u8, required: u8) -> (u8, bool) {
    if clicks + 1 >= required {
        (0, true)
    } else {
        ((clicks + 1) as u8, false)
    }
}

fn click(clicks: u8, required: u8) -> (r: (u8, bool))
    ensures
        r == next_clicks(clicks, required),
{
    if clicks >= 255 || clicks + 1 >= required {
        (0, true)
    } else {
        (clicks + 1, false)
    }
}

/// The count after `n` clicks on a confirmation that starts over.
pub open spec fn clicks_after(required: u8, n: nat) -> u8
    decreases n,
{
    if n == 0 {
        0
    } else {
        next_clicks(clicks_after(required, (n - 1) as nat), required).0
    }
}

/// A confirmation comes with every `required`-th click and with no other.
pub proof fn confirmation_takes_every_click(required: u8, n: nat)
    requires
        required > 0,
    ensures
        clicks_after(required, n) == n % required as nat,
        next_clicks(clicks_after(required, n), required).1 <==> (n + 1) % required as nat == 0,
    decreases n,
{
    lemma_mod_steps(n as int, required as int);
    if n > 0 {
        confirmation_takes_every_click(required, (n - 1) as nat);
        lemma_mod_steps(n - 1, required as int);
    } else {
        lemma_small_mod(0, required as nat);
    }
}

proof fn lemma_mod_steps(n: int, m: int)
    requires
        0 <= n,
        0 < m,
    ensures
        0 <= n % m < m,
        (n + 1) % m == if n % m + 1 == m {
            0
        } else {
            n % m + 1
        },
{
    lemma_fundamental_div_mod(n, m);
    lemma_mod_bound(n, m);
    let q = n / m;
    let r = n % m;
    if r + 1 == m {
        assert(n + 1 == (q + 1) * m + 0) by (nonlinear_arith)
            requires
                n == m * q + r,
                r + 1 == m,
        ;
        lemma_fundamental_div_mod_converse(n + 1, m, q + 1, 0);
    } else {
        assert(n + 1 == q * m + (r + 1)) by (nonlinear_arith)
            requires
                n == m * q + r,
        ;
        lemma_fundamental_div_mod_converse(n + 1, m, q, r + 1);
    }
}

// ---------------------------------------------------------------------------
// Parts of the state
// ---------------------------------------------------------------------------
#[derive(Debug, Clone, Copy, PartialEq, Eq, Structural)]
pub enum StartupRecordingPromptSeverity {
    Info,
    Warning,
}

/// What is asked at the start where earlier recordings are found.
#[derive(Debug, Clone)]
pub struct StartupRecordingPrompt {
    pub severity: StartupRecordingPromptSeverity,
    pub title: String,
    pub summary: String,
    pub details: Vec<String>,
    pub detected_recordings: DetectedTrainingRecordings,
}

/// Something that keeps the program busy.
#[derive(Debug, Clone, Copy, PartialEq, Eq, Structural)]
pub enum BusyAction {
    LoadDetectedTrainingRecordings,
    StartRealtime,
}

impl BusyAction {
    pub open spec fn spec_minimum(self) -> u64 {
        match self {
            BusyAction::LoadDetectedTrainingRecordings => 0,
            BusyAction::StartRealtime => 450,
        }
    }

    /// For how many milliseconds the action is shown at least.
    pub fn minimum_visible_duration(self) -> (r: u64)
        ensures
            r == self.spec_minimum(),
    {
        match self {
            BusyAction::LoadDetectedTrainingRecordings => 0,
            BusyAction::StartRealtime => 450,
        }
    }
}

/// What keeps the program busy, and how far it has got.
#[derive(Debug)]
pub struct BusyState {
    pub action: BusyAction,
    pub detail: String,
    pub progress: Float32,
    pub started_at: std::time::Instant,
}

/// `progress` moved between 0 and 1.
pub open spec fn shown_progress(progress: Float32) -> Float32 {
    progress.spec_clamped(Float32 { bits: 0 }, Float32 { bits: 0x3F80_0000 })
}

/// The state of the program.
#[derive(Debug)]
pub struct AppState {
    pub settings: AppSettings,
    pub config_path: String,
    pub device_inventory: DeviceInventory,
    pub last_device_error: Option<String>,
    pub last_persist_error: Option<String>,
    pub runtime_stage: RuntimeStage,
    pub runtime_metrics: RuntimeMetricsSnapshot,
    pub runtime_format: Option<RuntimeFormatSummary>,
    pub last_runtime_error: Option<String>,
    pub enrollment_script: EnrollmentScript,
    pub training_step: TrainingStep,
    pub training_step_started_at: std::time::Instant,
    pub restart_training_confirmation_clicks: u8,
    pub retry_previous_prompt_confirmation_clicks: u8,
    pub review_summary_rerecord_confirmation_target: Option<RecordingTakeKind>,
    pub review_summary_rerecord_confirmation_clicks: u8,
    pub startup_recording_prompt: Option<StartupRecordingPrompt>,
    pub startup_recording_overwrite_confirmation_clicks: u8,
    pub training_recordings: TrainingRecordingManifest,
    pub training_recording_active: bool,
    pub training_input_level_linear: Float32,
    pub last_training_recording_error: Option<String>,
    pub previewing_recording_kind: Option<RecordingTakeKind>,
    pub last_training_preview_error: Option<String>,
    pub training_quality_report: Option<QualityReport>,
    pub last_training_quality_error: Option<String>,
    pub default_profile_summary: Option<ProfileSummary>,
    pub last_profile_error: Option<String>,
    pub offline_basic_filter_input_path: String,
    pub offline_basic_filter_output_path: String,
    pub last_offline_basic_filter_metrics: Option<OfflineBasicFilterMetrics>,
    pub last_offline_basic_filter_error: Option<String>,
    pub busy_state: Option<BusyState>,
    pub pending_command: Option<AppCommand>,
}

impl AppState {
    /// How many prompts the enrollment has.
    pub open spec fn prompt_count(self) -> nat {
        self.enrollment_script.prompts@.len()
    }

    /// The state with every confirmation started over.
    pub open spec fn unconfirmed(self) -> AppState {
        AppState {
            restart_training_confirmation_clicks: 0,
            retry_previous_prompt_confirmation_clicks: 0,
            review_summary_rerecord_confirmation_target: None,
            review_summary_rerecord_confirmation_clicks: 0,
            startup_recording_overwrite_confirmation_clicks: 0,
            ..self
        }
    }

    /// The state at another step, entered at `since`, with every confirmation
    /// started over.
    pub open spec fn at_step(self, step: TrainingStep, since: std::time::Instant) -> AppState {
        AppState {
            training_step: step,
            training_step_started_at: since,
            ..self.unconfirmed()
        }
    }

    /// The state of a program that has just started.
    pub fn new(
        settings: AppSettings,
        config_path: String,
        device_inventory: DeviceInventory,
        last_device_error: Option<String>,
        enrollment_script: EnrollmentScript,
        default_profile_summary: Option<ProfileSummary>,
        last_profile_error: Option<String>,
        startup_recording_prompt: Option<StartupRecordingPrompt>,
    ) -> (r: Self)
        ensures
            r.settings == settings,
            r.config_path == config_path,
            r.device_inventory == device_inventory,
            r.last_device_error == last_device_error,
            r.last_persist_error is None,
            r.runtime_stage == RuntimeStage::Stopped,
            r.runtime_metrics == RuntimeMetricsSnapshot::spec_default(),
            r.runtime_format is None,
            r.last_runtime_error is None,
            r.enrollment_script == enrollment_script,
            r.training_step == TrainingStep::Preparation,
            r.restart_training_confirmation_clicks == 0,
            r.retry_previous_prompt_confirmation_clicks == 0,
            r.review_summary_rerecord_confirmation_target is None,
            r.review_summary_rerecord_confirmation_clicks == 0,
            r.startup_recording_prompt == startup_recording_prompt,
            r.startup_recording_overwrite_confirmation_clicks == 0,
            r.training_recordings.ambient_silence is None,
            r.training_recordings.fixed_prompts@ == Seq::new(
                enrollment_script.prompts@.len(),
                |i: int| None::<record::RecordedClip>,
            ),
            r.training_recordings.free_speech is None,
            !r.training_recording_active,
            r.training_input_level_linear.bits == 0,
            r.last_training_recording_error is None,
            r.previewing_recording_kind is None,
            r.last_training_preview_error is None,
            r.training_quality_report is None,
            r.last_training_quality_error is None,
            r.default_profile_summary == default_profile_summary,
            r.last_profile_error == last_profile_error,
            r.offline_basic_filter_input_path@ == default_input_path(),
            r.offline_basic_filter_output_path@ == default_output_path(),
            r.last_offline_basic_filter_metrics is None,
            r.last_offline_basic_filter_error is None,
            r.busy_state is None,
            r.pending_command is None,
    {
        let prompt_count = enrollment_script.prompts.len();
        AppState {
            settings,
            config_path,
            device_inventory,
            last_device_error,
            last_persist_error: None,
            runtime_stage: RuntimeStage::Stopped,
            runtime_metrics: RuntimeMetricsSnapshot::default(),
            runtime_format: None,
            last_runtime_error: None,
            enrollment_script,
            training_step: TrainingStep::Preparation,
            training_step_started_at: time::instant_now(),
            restart_training_confirmation_clicks: 0,
            retry_previous_prompt_confirmation_clicks: 0,
            review_summary_rerecord_confirmation_target: None,
            review_summary_rerecord_confirmation_clicks: 0,
            startup_recording_prompt,
            startup_recording_overwrite_confirmation_clicks: 0,
            training_recordings: TrainingRecordingManifest::new(prompt_count),
            training_recording_active: false,
            training_input_level_linear: Float32 { bits: 0 },
            last_training_recording_error: None,
            previewing_recording_kind: None,
            last_training_preview_error: None,
            training_quality_report: None,
            last_training_quality_error: None,
            default_profile_summary,
            last_profile_error,
            offline_basic_filter_input_path: default_offline_basic_filter_input_path(),
            offline_basic_filter_output_path: default_offline_basic_filter_output_path(),
            last_offline_basic_filter_metrics: None,
            last_offline_basic_filter_error: None,
            busy_state: None,
            pending_command: None,
        }
    }

    /// Asks for a command; an earlier one that was not taken up yet is forgotten.
    pub fn queue_command(&mut self, command: AppCommand)
        ensures
            *final(self) == (AppState { pending_command: Some(command), ..*old(self) }),
    {
        self.pending_command = Some(command);
    }

    /// Takes up the command that was asked for, if any.
    pub fn take_command(&mut self) -> (r: Option<AppCommand>)
        ensures
            r == old(self).pending_command,
            *final(self) == (AppState { pending_command: None, ..*old(self) }),
    {
        self.pending_command.take()
    }

    // -----------------------------------------------------------------------
    // Being busy
    // -----------------------------------------------------------------------
    /// Starts an action that keeps the program busy. A command that waits is
    /// forgotten.
    pub fn begin_busy_action(&mut self, action: BusyAction, detail: &str, progress: Float32)
        ensures
            *final(self) == (AppState {
                busy_state: final(self).busy_state,
                pending_command: None,
                ..*old(self)
            }),
            final(self).busy_state matches Some(busy) && busy.action == action && busy.detail@
                == detail@ && busy.progress == shown_progress(progress),
    {
        self.busy_state = Some(
            BusyState {
                action,
                detail: detail.to_owned(),
                progress: progress.clamped(Float32 { bits: 0 }, Float32 { bits: 0x3F80_0000 }),
                started_at: time::instant_now(),
            },
        );
        self.pending_command = None;
    }

    /// Tells how far an action has got; nothing happens where another action or
    /// none is going on.
    pub fn update_busy_action(&mut self, action: BusyAction, detail: &str, progress: Float32)
        ensures
            *final(self) == (AppState { busy_state: final(self).busy_state, ..*old(self) }),
            match old(self).busy_state {
                Some(busy) => if busy.action == action {
                    &&& final(self).busy_state matches Some(now)
                    &&& now.action == action
                    &&& now.detail@ == detail@
                    &&& now.progress == shown_progress(progress)
                    &&& now.started_at == busy.started_at
                } else {
                    final(self).busy_state == old(self).busy_state
                },
                None => final(self).busy_state is None,
            },
    {
        if let Some(busy) = self.busy_state.take() {
            if busy.action == action {
                self.busy_state = Some(
                    BusyState {
                        action,
                        detail: detail.to_owned(),
                        progress: progress.clamped(
                            Float32 { bits: 0 },
                            Float32 { bits: 0x3F80_0000 },
                        ),
                        started_at: busy.started_at,
                    },
                );
            } else {
                self.busy_state = Some(busy);
            }
        }
    }

    /// Ends the action that keeps the program busy.
    pub fn finish_busy_action(&mut self)
        ensures
            *final(self) == (AppState { busy_state: None, ..*old(self) }),
    {
        self.busy_state = None;
    }

    pub fn is_busy(&self) -> (r: bool)
        ensures
            r == (self.busy_state is Some),
    {
        self.busy_state.is_some()
    }

    /// How far `action` has got, if it is what keeps the program busy.
    pub open spec fn spec_busy_for(self, action: BusyAction) -> Option<BusyState> {
        match self.busy_state {
            Some(busy) => if busy.action == action {
                Some(busy)
            } else {
                None
            },
            None => None,
        }
    }

    /// How far `action` has got, if it is what keeps the program busy.
    pub fn busy_state_for(&self, action: BusyAction) -> (r: Option<&BusyState>)
        ensures
            r == match self.spec_busy_for(action) {
                Some(busy) => Some(&busy),
                None => None,
            },
    {
        match &self.busy_state {
            Some(busy) => if busy.action == action {
                Some(busy)
            } else {
                None
            },
            None => None,
        }
    }

    /// Whether an action that has been shown for `shown_millis` may go, or is not
    /// shown at all.
    pub fn busy_minimum_reached(&self, action: BusyAction, shown_millis: u128) -> (r: bool)
        ensures
            r == (self.spec_busy_for(action) is None || shown_millis >= action.spec_minimum()),
    {
        match self.busy_state_for(action) {
            Some(busy) => shown_millis >= action.minimum_visible_duration() as u128,
            None => true,
        }
    }

    /// Whether an action has been shown long enough, or is not shown at all. How
    /// long it has been shown is up to the clock.
    pub fn has_satisfied_busy_minimum_duration(&self, action: BusyAction) -> (r: bool)
        ensures
            self.spec_busy_for(action) is None ==> r,
            action.spec_minimum() == 0 ==> r,
    {
        let shown = match self.busy_state_for(action) {
            Some(busy) => time::elapsed_millis(&busy.started_at),
            None => 0,
        };
        self.busy_minimum_reached(action, shown)
    }

    // -----------------------------------------------------------------------
    // The guided enrollment
    // -----------------------------------------------------------------------
    /// Goes on to the next step.
    pub fn advance_training_step(&mut self)
        ensures
            *final(self) == old(self).at_step(
                old(self).training_step.spec_advance(old(self).prompt_count()),
                final(self).training_step_started_at,
            ),
    {
        self.reset_training_confirmation_clicks();
        self.training_step = self.training_step.advance(self.enrollment_script.prompts.len());
        self.training_step_started_at = time::instant_now();
    }

    /// Goes back to the first step.
    pub fn restart_training_flow(&mut self)
        ensures
            *final(self) == old(self).at_step(
                TrainingStep::Preparation,
                final(self).training_step_started_at,
            ),
    {
        self.reset_training_confirmation_clicks();
        self.training_step = TrainingStep::Preparation;
        self.training_step_started_at = time::instant_now();
    }

    /// Goes to recording one take again.
    pub fn begin_review_rerecord(&mut self, kind: RecordingTakeKind)
        ensures
            *final(self) == old(self).at_step(
                TrainingStep::ReviewRerecordPreparation { kind },
                final(self).training_step_started_at,
            ),
    {
        self.reset_training_confirmation_clicks();
        self.training_step = TrainingStep::ReviewRerecordPreparation { kind };
        self.training_step_started_at = time::instant_now();
    }

    /// Takes over earlier recordings and goes to their review.
    pub fn load_detected_training_recordings(&mut self, manifest: TrainingRecordingManifest)
        ensures
            *final(self) == (AppState {
                training_recordings: manifest,
                settings: AppSettings {
                    selected_page: UiPage::Training,
                    ..old(self).settings
                },
                startup_recording_prompt: None,
                ..old(self).at_step(TrainingStep::Review, final(self).training_step_started_at)
            }),
    {
        self.reset_training_confirmation_clicks();
        self.training_recordings = manifest;
        self.training_step = TrainingStep::Review;
        self.training_step_started_at = time::instant_now();
        self.settings.selected_page = UiPage::Training;
        self.dismiss_startup_recording_prompt();
    }

    /// Counts a click on restarting; only the review step takes it. Tells whether
    /// restarting is confirmed.
    pub fn confirm_restart_training(&mut self) -> (r: bool)
        ensures
            ({
                let (clicks, confirmed) = next_clicks(
                    old(self).restart_training_confirmation_clicks,
                    RESTART_TRAINING_CONFIRMATION_CLICKS,
                );
                if old(self).training_step == TrainingStep::Review {
                    r == confirmed && *final(self) == (AppState {
                        restart_training_confirmation_clicks: clicks,
                        ..*old(self)
                    })
                } else {
                    !r && *final(self) == (AppState {
                        restart_training_confirmation_clicks: 0,
                        ..*old(self)
                    })
                }
            }),
    {
        if !self.is_review_step() {
            self.reset_restart_training_confirmation();
            return false;
        }
        let (clicks, confirmed) = click(
            self.restart_training_confirmation_clicks,
            RESTART_TRAINING_CONFIRMATION_CLICKS,
        );
        self.restart_training_confirmation_clicks = clicks;
        confirmed
    }

    /// Whether there is a previous prompt to retry.
    pub fn can_retry_previous_prompt(&self) -> (r: bool)
        ensures
            r == (self.training_step.spec_retry(self.prompt_count()) is Some),
    {
        self.training_step.retry_previous_prompt(self.enrollment_script.prompts.len()).is_some()
    }

    /// Counts a click on retrying; only a step with a previous prompt takes it.
    /// Tells whether retrying is confirmed.
    pub fn confirm_retry_previous_prompt(&mut self) -> (r: bool)
        ensures
            ({
                let (clicks, confirmed) = next_clicks(
                    old(self).retry_previous_prompt_confirmation_clicks,
                    RETRY_PREVIOUS_PROMPT_CONFIRMATION_CLICKS,
                );
                if old(self).training_step.spec_retry(old(self).prompt_count()) is Some {
                    r == confirmed && *final(self) == (AppState {
                        retry_previous_prompt_confirmation_clicks: clicks,
                        ..*old(self)
                    })
                } else {
                    !r && *final(self) == (AppState {
                        retry_previous_prompt_confirmation_clicks: 0,
                        ..*old(self)
                    })
                }
            }),
    {
        if !self.can_retry_previous_prompt() {
            self.reset_retry_previous_prompt_confirmation();
            return false;
        }
        let (clicks, confirmed) = click(
            self.retry_previous_prompt_confirmation_clicks,
            RETRY_PREVIOUS_PROMPT_CONFIRMATION_CLICKS,
        );
        self.retry_previous_prompt_confirmation_clicks = clicks;
        confirmed
    }

    /// Goes back to the previous prompt, where there is one.
    pub fn retry_previous_prompt(&mut self)
        ensures
            *final(self) == match old(self).training_step.spec_retry(old(self).prompt_count()) {
                Some(step) => old(self).at_step(step, final(self).training_step_started_at),
                None => *old(self),
            },
    {
        if let Some(step) = self.training_step.retry_previous_prompt(
            self.enrollment_script.prompts.len(),
        ) {
            self.reset_training_confirmation_clicks();
            self.training_step = step;
            self.training_step_started_at = time::instant_now();
        }
    }

    pub fn is_training_recording_active(&self) -> (r: bool)
        ensures
            r == self.training_recording_active,
    {
        self.training_recording_active
    }

    pub fn is_review_step(&self) -> (r: bool)
        ensures
            r == (self.training_step == TrainingStep::Review),
    {
        match self.training_step {
            TrainingStep::Review => true,
            _ => false,
        }
    }

    /// What a click on recording a take again does, and whether it confirms. Only the
    /// review step takes it, and clicks on different takes do not add up.
    pub open spec fn spec_rerecord_click(self, kind: RecordingTakeKind) -> (AppState, bool) {
        let (clicks, confirmed) = next_clicks(
            self.review_summary_rerecord_confirmation_clicks,
            REVIEW_SUMMARY_RERECORD_CONFIRMATION_CLICKS,
        );
        if self.training_step != TrainingStep::Review {
            (
                AppState {
                    review_summary_rerecord_confirmation_target: None,
                    review_summary_rerecord_confirmation_clicks: 0,
                    ..self
                },
                false,
            )
        } else if self.review_summary_rerecord_confirmation_target != Some(kind) {
            (
                AppState {
                    review_summary_rerecord_confirmation_target: Some(kind),
                    review_summary_rerecord_confirmation_clicks: 1,
                    ..self
                },
                false,
            )
        } else {
            (
                AppState {
                    review_summary_rerecord_confirmation_target: if confirmed {
                        None
                    } else {
                        Some(kind)
                    },
                    review_summary_rerecord_confirmation_clicks: clicks,
                    ..self
                },
                confirmed,
            )
        }
    }

    /// Counts a click on recording a take again. Tells whether it is confirmed.
    pub fn confirm_review_summary_rerecord(&mut self, kind: RecordingTakeKind) -> (r: bool)
        ensures
            (*final(self), r) == old(self).spec_rerecord_click(kind),
    {
        if !self.is_review_step() {
            self.reset_review_summary_rerecord_confirmation();
            return false;
        }
        let same = match self.review_summary_rerecord_confirmation_target {
            Some(target) => target == kind,
            None => false,
        };
        if !same {
            self.review_summary_rerecord_confirmation_target = Some(kind);
            self.review_summary_rerecord_confirmation_clicks = 1;
            return false;
        }
        let (clicks, confirmed) = click(
            self.review_summary_rerecord_confirmation_clicks,
            REVIEW_SUMMARY_RERECORD_CONFIRMATION_CLICKS,
        );
        self.review_summary_rerecord_confirmation_clicks = clicks;
        if confirmed {
            self.reset_review_summary_rerecord_confirmation();
        }
        confirmed
    }

    /// How far confirming has got for recording this take again: clicks made and
    /// clicks needed.
    pub open spec fn spec_rerecord_progress(self, kind: RecordingTakeKind) -> Option<(u8, u8)> {
        if self.review_summary_rerecord_confirmation_target == Some(kind)
            && self.review_summary_rerecord_confirmation_clicks > 0 {
            Some(
                (
                    self.review_summary_rerecord_confirmation_clicks,
                    REVIEW_SUMMARY_RERECORD_CONFIRMATION_CLICKS,
                ),
            )
        } else {
            None
        }
    }

    /// How far confirming has got for recording this take again.
    pub fn review_summary_rerecord_progress(&self, kind: RecordingTakeKind) -> (r: Option<(u8, u8)>)
        ensures
            r == self.spec_rerecord_progress(kind),
    {
        let same = match self.review_summary_rerecord_confirmation_target {
            Some(target) => target == kind,
            None => false,
        };
        if same && self.review_summary_rerecord_confirmation_clicks > 0 {
            Some(
                (
                    self.review_summary_rerecord_confirmation_clicks,
                    REVIEW_SUMMARY_RERECORD_CONFIRMATION_CLICKS,
                ),
            )
        } else {
            None
        }
    }

    /// Forgets the clicks on recording a take again.
    pub fn cancel_review_summary_rerecord_confirmation(&mut self)
        ensures
            *final(self) == (AppState {
                review_summary_rerecord_confirmation_target: None,
                review_summary_rerecord_confirmation_clicks: 0,
                ..*old(self)
            }),
    {
        self.reset_review_summary_rerecord_confirmation();
    }

    // -----------------------------------------------------------------------
    // Earlier recordings
    // -----------------------------------------------------------------------
    /// Counts a click on overwriting; only where there is something to overwrite.
    /// Tells whether overwriting is confirmed.
    pub fn confirm_startup_recording_overwrite(&mut self) -> (r: bool)
        ensures
            ({
                let (clicks, confirmed) = next_clicks(
                    old(self).startup_recording_overwrite_confirmation_clicks,
                    STARTUP_RECORDING_OVERWRITE_CONFIRMATION_CLICKS,
                );
                if old(self).startup_recording_prompt is Some {
                    r == confirmed && *final(self) == (AppState {
                        startup_recording_overwrite_confirmation_clicks: clicks,
                        ..*old(self)
                    })
                } else {
                    !r && *final(self) == (AppState {
                        startup_recording_overwrite_confirmation_clicks: 0,
                        ..*old(self)
                    })
                }
            }),
    {
        if self.startup_recording_prompt.is_none() {
            self.reset_startup_recording_overwrite_confirmation();
            return false;
        }
        let (clicks, confirmed) = click(
            self.startup_recording_overwrite_confirmation_clicks,
            STARTUP_RECORDING_OVERWRITE_CONFIRMATION_CLICKS,
        );
        self.startup_recording_overwrite_confirmation_clicks = clicks;
        confirmed
    }

    /// How far confirming has got for overwriting: clicks made and clicks needed.
    pub open spec fn spec_overwrite_progress(self) -> Option<(u8, u8)> {
        if self.startup_recording_prompt is Some
            && self.startup_recording_overwrite_confirmation_clicks > 0 {
            Some(
                (
                    self.startup_recording_overwrite_confirmation_clicks,
                    STARTUP_RECORDING_OVERWRITE_CONFIRMATION_CLICKS,
                ),
            )
        } else {
            None
        }
    }

    /// How far confirming has got for overwriting.
    pub fn startup_recording_overwrite_progress(&self) -> (r: Option<(u8, u8)>)
        ensures
            r == self.spec_overwrite_progress(),
    {
        if self.startup_recording_prompt.is_some()
            && self.startup_recording_overwrite_confirmation_clicks > 0 {
            Some(
                (
                    self.startup_recording_overwrite_confirmation_clicks,
                    STARTUP_RECORDING_OVERWRITE_CONFIRMATION_CLICKS,
                ),
            )
        } else {
            None
        }
    }

    /// Forgets the clicks on overwriting.
    pub fn cancel_startup_recording_overwrite_confirmation(&mut self)
        ensures
            *final(self) == (AppState {
                startup_recording_overwrite_confirmation_clicks: 0,
                ..*old(self)
            }),
    {
        self.reset_startup_recording_overwrite_confirmation();
    }

    /// Asks no longer about earlier recordings.
    pub fn dismiss_startup_recording_prompt(&mut self)
        ensures
            *final(self) == (AppState {
                startup_recording_prompt: None,
                startup_recording_overwrite_confirmation_clicks: 0,
                ..*old(self)
            }),
    {
        self.startup_recording_prompt = None;
        self.reset_startup_recording_overwrite_confirmation();
    }

    /// Goes back to the default files for filtering.
    pub fn restore_default_offline_basic_filter_paths(&mut self)
        ensures
            *final(self) == (AppState {
                offline_basic_filter_input_path: final(self).offline_basic_filter_input_path,
                offline_basic_filter_output_path: final(self).offline_basic_filter_output_path,
                ..*old(self)
            }),
            final(self).offline_basic_filter_input_path@ == default_input_path(),
            final(self).offline_basic_filter_output_path@ == default_output_path(),
    {
        self.offline_basic_filter_input_path = default_offline_basic_filter_input_path();
        self.offline_basic_filter_output_path = default_offline_basic_filter_output_path();
    }

    fn reset_restart_training_confirmation(&mut self)
        ensures
            *final(self) == (AppState { restart_training_confirmation_clicks: 0, ..*old(self) }),
    {
        self.restart_training_confirmation_clicks = 0;
    }

    fn reset_retry_previous_prompt_confirmation(&mut self)
        ensures
            *final(self) == (AppState {
                retry_previous_prompt_confirmation_clicks: 0,
                ..*old(self)
            }),
    {
        self.retry_previous_prompt_confirmation_clicks = 0;
    }

    fn reset_review_summary_rerecord_confirmation(&mut self)
        ensures
            *final(self) == (AppState {
                review_summary_rerecord_confirmation_target: None,
                review_summary_rerecord_confirmation_clicks: 0,
                ..*old(self)
            }),
    {
        self.review_summary_rerecord_confirmation_target = None;
        self.review_summary_rerecord_confirmation_clicks = 0;
    }

    fn reset_startup_recording_overwrite_confirmation(&mut self)
        ensures
            *final(self) == (AppState {
                startup_recording_overwrite_confirmation_clicks: 0,
                ..*old(self)
            }),
    {
        self.startup_recording_overwrite_confirmation_clicks = 0;
    }

    fn reset_training_confirmation_clicks(&mut self)
        ensures
            *final(self) == old(self).unconfirmed(),
    {
        self.reset_restart_training_confirmation();
        self.reset_retry_previous_prompt_confirmation();
        self.reset_review_summary_rerecord_confirmation();
        self.reset_startup_recording_overwrite_confirmation();
    }
}

/// The first click on recording a take again never confirms, whatever was clicked
/// before on another take; two more clicks on the same take do.
pub proof fn rerecording_takes_three_clicks(state: AppState, kind: RecordingTakeKind)
    requires
        state.training_step == TrainingStep::Review,
        state.review_summary_rerecord_confirmation_target != Some(kind),
    ensures
        ({
            let (first, a) = state.spec_rerecord_click(kind);
            let (second, b) = first.spec_rerecord_click(kind);
            let (third, c) = second.spec_rerecord_click(kind);
            &&& !a && !b && c
            &&& first.spec_rerecord_progress(kind) == Some((1u8, 3u8))
            &&& second.spec_rerecord_progress(kind) == Some((2u8, 3u8))
            &&& third.spec_rerecord_progress(kind) is None
        }),
{
}

/// Progress is shown between 0 and 1, as it is where it lies there.
pub proof fn progress_is_shown_in_range(progress: Float32)
    requires
        !progress.spec_is_nan(),
    ensures
        (Float32 { bits: 0 }).at_most(shown_progress(progress)),
        shown_progress(progress).at_most(Float32 { bits: 0x3F80_0000 }),
        (Float32 { bits: 0 }).at_most(progress) && progress.at_most(Float32 { bits: 0x3F80_0000 })
            ==> shown_progress(progress) == progress,
{
    crate::util::float32::lemma_scaled_order(
        Float32 { bits: 0 },
        Float32 { bits: 0x3F80_0000 },
    );
}

/// Moving to a step starts every confirmation over and leaves recordings, settings and devices
/// alone.
pub proof fn steps_start_confirmations_over(
    state: AppState,
    step: TrainingStep,
    since: std::time::Instant,
)
    ensures
        ({
            let moved = state.at_step(step, since);
            &&& moved.training_step == step
            &&& moved.training_step_started_at == since
            &&& moved.restart_training_confirmation_clicks == 0
            &&& moved.retry_previous_prompt_confirmation_clicks == 0
            &&& moved.review_summary_rerecord_confirmation_clicks == 0
            &&& moved.review_summary_rerecord_confirmation_target is None
            &&& moved.startup_recording_overwrite_confirmation_clicks == 0
            &&& moved.training_recordings == state.training_recordings
            &&& moved.training_recording_active == state.training_recording_active
            &&& moved.training_quality_report == state.training_quality_report
            &&& moved.settings == state.settings
            &&& moved.enrollment_script == state.enrollment_script
            &&& moved.runtime_stage == state.runtime_stage
            &&& moved.startup_recording_prompt == state.startup_recording_prompt
            &&& moved.pending_command == state.pending_command
            &&& moved.busy_state == state.busy_state
        }),
{
}

/// Clicks on recording one take again do not count for another, and none count outside the
/// review.
pub proof fn rerecord_clicks_belong_to_one_take(
    state: AppState,
    kind: RecordingTakeKind,
    other: RecordingTakeKind,
)
    requires
        kind != other,
    ensures
        ({
            let (after, confirmed) = state.spec_rerecord_click(kind);
            &&& after.spec_rerecord_progress(other) is None
            &&& state.training_step != TrainingStep::Review ==> !confirmed
                && after.spec_rerecord_progress(kind) is None
            &&& state.review_summary_rerecord_confirmation_target != Some(kind) ==> !confirmed
            &&& after.training_recordings == state.training_recordings
            &&& after.training_step == state.training_step
        }),
{
}

/// What keeps the program busy is told for its own action only.
pub proof fn busy_is_told_by_action(state: AppState, action: BusyAction)
    ensures
        state.busy_state is None ==> state.spec_busy_for(action) is None,
        state.busy_state matches Some(busy) ==> (state.spec_busy_for(action) == if busy.action
            == action {
            Some(busy)
        } else {
            None
        }),
        BusyAction::LoadDetectedTrainingRecordings.spec_minimum() == 0,
        BusyAction::StartRealtime.spec_minimum() == 450,
{
}

/// Clicks on overwriting are told exactly while it is asked about and some were made.
pub proof fn overwriting_is_counted_while_asked(state: AppState)
    ensures
        state.spec_overwrite_progress() is Some <==> state.startup_recording_prompt is Some
            && state.startup_recording_overwrite_confirmation_clicks != 0,
        state.spec_overwrite_progress() matches Some(progress) ==> progress.0
            == state.startup_recording_overwrite_confirmation_clicks && progress.1 == 3,
{
}

} // verus!
