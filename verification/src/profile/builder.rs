//! Making a speaker profile of the recordings of an enrollment.

use crate::ml::speaker::AggregatedSpeakerProfile;
use crate::profile::quality::QualityReport;
use crate::profile::quality;
use crate::profile::record::{EnrollmentScript, FREE_SPEECH_SECONDS, TrainingRecordingManifest};
use crate::profile::record;
use crate::profile::scan;
use crate::profile::storage::{DEFAULT_PROFILE_ID, SpeakerProfile};
use crate::util::path;
use crate::util::text;
use vstd::prelude::*;

verus! {

/// Makes speaker profiles.
#[derive(Debug)]
pub struct SpeakerProfileBuilder;

/// Why no profile can be made.
#[derive(Debug, Clone, Copy, PartialEq, Eq, Structural)]
pub enum BuildError {
    PromptCountMismatch,
    NoAmbientSilence,
    NoFreeSpeech,
    PromptsMissing,
}

impl BuildError {
    pub open spec fn spec_message(self) -> Seq<char> {
        match self {
            BuildError::PromptCountMismatch => {
                "prompt count mismatch between enrollment script and training manifest"@
            },
            BuildError::NoAmbientSilence => {
                "cannot build default profile without ambient silence recording"@
            },
            BuildError::NoFreeSpeech => {
                "cannot build default profile without free speech recording"@
            },
            BuildError::PromptsMissing => {
                "cannot build default profile until all fixed prompts are recorded"@
            },
        }
    }

    /// The error in words.
    pub fn message(self) -> (r: &'static str)
        ensures
            r@ == self.spec_message(),
    {
        match self {
            BuildError::PromptCountMismatch => {
                "prompt count mismatch between enrollment script and training manifest"
            },
            BuildError::NoAmbientSilence => {
                "cannot build default profile without ambient silence recording"
            },
            BuildError::NoFreeSpeech => {
                "cannot build default profile without free speech recording"
            },
            BuildError::PromptsMissing => {
                "cannot build default profile until all fixed prompts are recorded"
            },
        }
    }
}

/// What stands in the way of a profile, if anything: what comes first counts.
pub open spec fn obstacle(
    manifest: TrainingRecordingManifest,
    prompt_count: nat,
) -> Option<BuildError> {
    if prompt_count != manifest.fixed_prompts@.len() {
        Some(BuildError::PromptCountMismatch)
    } else if manifest.ambient_silence is None {
        Some(BuildError::NoAmbientSilence)
    } else if manifest.free_speech is None {
        Some(BuildError::NoFreeSpeech)
    } else if record::present(manifest.fixed_prompts@).len() != manifest.fixed_prompts@.len() {
        Some(BuildError::PromptsMissing)
    } else {
        None
    }
}

/// Whether `profile` is the profile that the recordings, their quality and what
/// was learnt of the voice amount to.
pub open spec fn is_profile_of(
    profile: SpeakerProfile,
    manifest: TrainingRecordingManifest,
    report: QualityReport,
    script: EnrollmentScript,
    voice: AggregatedSpeakerProfile,
    created_at_utc: Seq<char>,
) -> bool {
    &&& profile.profile_id@ == DEFAULT_PROFILE_ID@
    &&& profile.created_at_utc@ == created_at_utc
    &&& profile.model_version@ == voice.model_version@
    &&& profile.embedding_count == voice.embeddings@.len()
    &&& profile.embedding_dimension == Some(voice.centroid@.len() as usize)
    &&& profile.centroid@ == voice.centroid@
    &&& profile.dispersion == Some(voice.dispersion)
    &&& profile.suggested_threshold == voice.suggested_threshold
    &&& profile.prompt_locale@ == script.locale@
    &&& profile.prompt_count == script.prompts@.len()
    &&& profile.free_speech_seconds == Some(FREE_SPEECH_SECONDS)
    &&& match profile.raw_audio_path {
        Some(dir) => path::parent_of(manifest.ambient_silence->0.relative_path@) matches Some(above)
            && dir@ == text::with_slashes(above),
        None => path::parent_of(manifest.ambient_silence->0.relative_path@) is None,
    }
    &&& profile.cleaned_audio_path is None
    &&& profile.speech_activity_threshold_dbfs == report.speech_activity_threshold_dbfs
    &&& profile.quality_severity@ == report.spec_severity().spec_label()
    &&& profile.quality_warning_count == report.count(quality::QualitySeverity::Warning)
    &&& profile.quality_error_count == report.count(quality::QualitySeverity::Error)
    &&& text::texts(profile.source_recordings@) == scan::clip_paths(manifest.clips())
}

impl SpeakerProfileBuilder {
    /// Whether a profile can be made of the recordings.
    pub fn check(manifest: &TrainingRecordingManifest, enrollment_script: &EnrollmentScript) -> (r:
        Result<(), BuildError>)
        ensures
            r == match obstacle(*manifest, enrollment_script.prompts@.len()) {
                Some(error) => Err::<(), BuildError>(error),
                None => Ok::<(), BuildError>(()),
            },
    {
        if enrollment_script.prompts.len() != manifest.fixed_prompts.len() {
            return Err(BuildError::PromptCountMismatch);
        }
        if manifest.ambient_silence.is_none() {
            return Err(BuildError::NoAmbientSilence);
        }
        if manifest.free_speech.is_none() {
            return Err(BuildError::NoFreeSpeech);
        }
        if manifest.recorded_prompt_count() != manifest.fixed_prompts.len() {
            return Err(BuildError::PromptsMissing);
        }
        Ok(())
    }

    /// Makes the default profile, given what was learnt of the voice and the
    /// time.
    pub fn build_default(
        manifest: &TrainingRecordingManifest,
        quality_report: &QualityReport,
        enrollment_script: &EnrollmentScript,
        voice: AggregatedSpeakerProfile,
        created_at_utc: String,
    ) -> (r: Result<SpeakerProfile, BuildError>)
        requires
            quality_report.is_countable(),
        ensures
            match obstacle(*manifest, enrollment_script.prompts@.len()) {
                Some(error) => r == Err::<SpeakerProfile, BuildError>(error),
                None => r matches Ok(profile) && is_profile_of(
                    profile,
                    *manifest,
                    *quality_report,
                    *enrollment_script,
                    voice,
                    created_at_utc@,
                ),
            },
            r matches Ok(profile) ==> {
                &&& profile.speech_activity_threshold_dbfs
                    == quality_report.speech_activity_threshold_dbfs
                &&& profile.centroid@ == voice.centroid@
                &&& profile.dispersion == Some(voice.dispersion)
                &&& profile.suggested_threshold == voice.suggested_threshold
                &&& profile.embedding_count == voice.embeddings@.len()
                &&& profile.prompt_count == enrollment_script.prompts@.len()
                &&& profile.source_recordings@.len() == manifest.clips().len()
            },
    {
        match SpeakerProfileBuilder::check(manifest, enrollment_script) {
            Ok(()) => {},
            Err(error) => {
                return Err(error);
            },
        }
        let source_recordings = scan::source_recordings_from_manifest(manifest);
        let raw_audio_path = match &manifest.ambient_silence {
            Some(clip) => match path::parent_path(clip.relative_path.as_str()) {
                Some(dir) => Some(path::normalize_relative_path(dir.as_str())),
                None => None,
            },
            None => None,
        };
        Ok(
            SpeakerProfile {
                profile_id: DEFAULT_PROFILE_ID.to_owned(),
                created_at_utc,
                model_version: voice.model_version.to_owned(),
                embedding_count: voice.embeddings.len(),
                embedding_dimension: Some(voice.centroid.len()),
                centroid: voice.centroid,
                dispersion: Some(voice.dispersion),
                suggested_threshold: voice.suggested_threshold,
                prompt_locale: enrollment_script.locale.to_owned(),
                prompt_count: enrollment_script.prompts.len(),
                free_speech_seconds: Some(FREE_SPEECH_SECONDS),
                raw_audio_path,
                cleaned_audio_path: None,
                speech_activity_threshold_dbfs: quality_report.speech_activity_threshold_dbfs,
                quality_severity: quality_report.severity().label().to_owned(),
                quality_warning_count: quality_report.warning_count(),
                quality_error_count: quality_report.error_count(),
                source_recordings,
            },
        )
    }
}

/// Nothing stands in the way of a profile exactly where every take of the script
/// is recorded.
pub proof fn profile_needs_every_take(manifest: TrainingRecordingManifest, prompt_count: nat)
    ensures
        obstacle(manifest, prompt_count) is None <==> manifest.complete()
            && manifest.fixed_prompts@.len() == prompt_count,
{
    record::lemma_present_bound(manifest.fixed_prompts@);
}

/// A profile names one source recording for every prompt and two more: the
/// ambient take and the free speech.
pub proof fn profile_names_every_recording(
    profile: SpeakerProfile,
    manifest: TrainingRecordingManifest,
    report: QualityReport,
    script: EnrollmentScript,
    voice: AggregatedSpeakerProfile,
    created_at_utc: Seq<char>,
)
    requires
        is_profile_of(profile, manifest, report, script, voice, created_at_utc),
        obstacle(manifest, script.prompts@.len()) is None,
    ensures
        profile.source_recordings@.len() == profile.prompt_count + 2,
{
    assert(text::texts(profile.source_recordings@).len() == profile.source_recordings@.len());
    assert(scan::clip_paths(manifest.clips()).len() == manifest.clips().len());
}

/// A profile works by what was found for its room and its voice: two profiles share the
/// activity threshold exactly where their reports do, and likewise centroid, dispersion,
/// suggested threshold and the numbers of warnings and errors.
pub proof fn profiles_differ_as_their_sources(
    first: SpeakerProfile,
    second: SpeakerProfile,
    manifest: TrainingRecordingManifest,
    first_report: QualityReport,
    second_report: QualityReport,
    script: EnrollmentScript,
    first_voice: AggregatedSpeakerProfile,
    second_voice: AggregatedSpeakerProfile,
    first_time: Seq<char>,
    second_time: Seq<char>,
)
    requires
        is_profile_of(first, manifest, first_report, script, first_voice, first_time),
        is_profile_of(second, manifest, second_report, script, second_voice, second_time),
    ensures
        first.speech_activity_threshold_dbfs == second.speech_activity_threshold_dbfs
            <==> first_report.speech_activity_threshold_dbfs
            == second_report.speech_activity_threshold_dbfs,
        first.speech_activity_threshold_dbfs == first_report.speech_activity_threshold_dbfs,
        first.quality_warning_count == second.quality_warning_count <==> first_report.count(
            quality::QualitySeverity::Warning,
        ) == second_report.count(quality::QualitySeverity::Warning),
        first.quality_error_count == second.quality_error_count <==> first_report.count(
            quality::QualitySeverity::Error,
        ) == second_report.count(quality::QualitySeverity::Error),
        first.quality_severity@ == second.quality_severity@ <==> first_report.spec_severity()
            == second_report.spec_severity(),
        first.centroid@ == second.centroid@ <==> first_voice.centroid@ == second_voice.centroid@,
        first.dispersion == second.dispersion <==> first_voice.dispersion
            == second_voice.dispersion,
        first.suggested_threshold == second.suggested_threshold
            <==> first_voice.suggested_threshold == second_voice.suggested_threshold,
        first.embedding_count == second.embedding_count <==> first_voice.embeddings@.len()
            == second_voice.embeddings@.len(),
        first.created_at_utc@ == second.created_at_utc@ <==> first_time == second_time,
        first.model_version@ == second.model_version@ <==> first_voice.model_version@
            == second_voice.model_version@,
{
    reveal_strlit("通过");
    reveal_strlit("警告");
    reveal_strlit("错误");
    assert("通过"@[0] != "警告"@[0] && "警告"@[0] != "错误"@[0] && "通过"@[0] != "错误"@[0]);
}

/// A profile that was made of a voice can be filtered by.
pub proof fn built_profiles_can_be_filtered_by(
    profile: SpeakerProfile,
    manifest: TrainingRecordingManifest,
    report: QualityReport,
    script: EnrollmentScript,
    voice: AggregatedSpeakerProfile,
    created_at_utc: Seq<char>,
)
    requires
        is_profile_of(profile, manifest, report, script, voice, created_at_utc),
        voice.embeddings@.len() > 0,
        voice.centroid@.len() == 8,
    ensures
        profile.embedding_count > 0,
        profile.embedding_dimension == Some(8usize),
        crate::pipeline::filter::profile_obstacle(profile) is None,
{
}

/// A profile names the file of every take: the recording that stands at a place among all
/// recordings has its file at the same place.
pub proof fn profile_sources_are_the_recordings(
    profile: SpeakerProfile,
    manifest: TrainingRecordingManifest,
    report: QualityReport,
    script: EnrollmentScript,
    voice: AggregatedSpeakerProfile,
    created_at_utc: Seq<char>,
    i: int,
)
    requires
        is_profile_of(profile, manifest, report, script, voice, created_at_utc),
        0 <= i < manifest.clips().len(),
    ensures
        profile.source_recordings@.len() == manifest.clips().len(),
        profile.source_recordings@[i]@ == manifest.clips()[i].relative_path@,
        profile.prompt_count == script.prompts@.len(),
        profile.prompt_locale@ == script.locale@,
        profile.profile_id@ == "default"@,
        profile.free_speech_seconds == Some(30u32),
{
    let texts = text::texts(profile.source_recordings@);
    assert(texts.len() == profile.source_recordings@.len());
    assert(scan::clip_paths(manifest.clips()).len() == manifest.clips().len());
    assert(texts[i] == profile.source_recordings@[i]@);
    assert(scan::clip_paths(manifest.clips())[i] == manifest.clips()[i].relative_path@);
}

/// The profile names the directory of the ambient take, with slashes for backslashes.
pub proof fn profile_names_its_directory(
    profile: SpeakerProfile,
    manifest: TrainingRecordingManifest,
    report: QualityReport,
    script: EnrollmentScript,
    voice: AggregatedSpeakerProfile,
    created_at_utc: Seq<char>,
    dir: Seq<char>,
    name: Seq<char>,
)
    requires
        is_profile_of(profile, manifest, report, script, voice, created_at_utc),
        manifest.ambient_silence is Some,
        manifest.ambient_silence->0.relative_path@ == dir + seq!['/'] + name,
        dir.len() > 0,
        dir.last() != '/',
        dir.last() == '.' ==> dir.len() == 1 || dir[dir.len() - 2] != '/',
        name.len() > 0,
        name != seq!['.'],
        forall|i: int| 0 <= i < name.len() ==> #[trigger] name[i] != '/',
    ensures
        profile.raw_audio_path is Some,
        profile.raw_audio_path->0@.len() == dir.len(),
        forall|i: int|
            0 <= i < dir.len() ==> #[trigger] profile.raw_audio_path->0@[i] == if dir[i] == '\\' {
                '/'
            } else {
                dir[i]
            },
{
    path::parent_undoes_below(dir, name);
}

} // verus!
