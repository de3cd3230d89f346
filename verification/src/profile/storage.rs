//! The speaker profile, its summary and where it is stored.

use crate::util::float32::Float32;
use crate::util::path;
use crate::util::text;
use vstd::prelude::*;

verus! {

/// The file that holds a speaker profile.
pub const PROFILE_FILENAME: &'static str = "speaker_profile.json";

/// The only profile there is.
pub const DEFAULT_PROFILE_ID: &'static str = "default";

/// The directory that holds the profiles.
pub const PROFILES_DIR: &'static str = "profiles";

/// The encoding of -42, the level from which a frame counts as speech where a
/// profile does not say.
pub const DEFAULT_ACTIVITY_THRESHOLD_BITS: u32 = 0xC228_0000;

/// What a profile without a quality grade is graded.
pub fn default_quality_severity() -> (r: String)
    ensures
        r@ == "未知"@,
{
    "未知".to_owned()
}

/// The activity threshold of a profile without one, in dBFS.
pub fn default_speech_activity_threshold_dbfs() -> (r: Float32)
    ensures
        r == (Float32 { bits: DEFAULT_ACTIVITY_THRESHOLD_BITS }),
{
    Float32 { bits: DEFAULT_ACTIVITY_THRESHOLD_BITS }
}

/// What is known of a speaker's voice.
#[derive(Debug, Clone)]
pub struct SpeakerProfile {
    pub profile_id: String,
    pub created_at_utc: String,
    pub model_version: String,
    pub embedding_count: usize,
    pub embedding_dimension: Option<usize>,
    pub centroid: Vec<Float32>,
    pub dispersion: Option<Float32>,
    pub suggested_threshold: Float32,
    pub prompt_locale: String,
    pub prompt_count: usize,
    pub free_speech_seconds: Option<u32>,
    pub raw_audio_path: Option<String>,
    pub cleaned_audio_path: Option<String>,
    pub speech_activity_threshold_dbfs: Float32,
    pub quality_severity: String,
    pub quality_warning_count: usize,
    pub quality_error_count: usize,
    pub source_recordings: Vec<String>,
}

/// The parts of a profile that are shown.
#[derive(Debug)]
pub struct ProfileSummary {
    pub profile_id: String,
    pub created_at_utc: String,
    pub model_version: String,
    pub embedding_count: usize,
    pub suggested_threshold: Float32,
    pub prompt_count: usize,
    pub quality_severity: String,
    pub quality_warning_count: usize,
    pub quality_error_count: usize,
}

impl Clone for ProfileSummary {
    fn clone(&self) -> (r: Self)
        ensures
            r == *self,
    {
        ProfileSummary {
            profile_id: self.profile_id.clone(),
            created_at_utc: self.created_at_utc.clone(),
            model_version: self.model_version.clone(),
            embedding_count: self.embedding_count,
            suggested_threshold: self.suggested_threshold,
            prompt_count: self.prompt_count,
            quality_severity: self.quality_severity.clone(),
            quality_warning_count: self.quality_warning_count,
            quality_error_count: self.quality_error_count,
        }
    }
}

impl SpeakerProfile {
    /// The parts of the profile that are shown.
    pub open spec fn spec_summary(self) -> ProfileSummary {
        ProfileSummary {
            profile_id: self.profile_id,
            created_at_utc: self.created_at_utc,
            model_version: self.model_version,
            embedding_count: self.embedding_count,
            suggested_threshold: self.suggested_threshold,
            prompt_count: self.prompt_count,
            quality_severity: self.quality_severity,
            quality_warning_count: self.quality_warning_count,
            quality_error_count: self.quality_error_count,
        }
    }

    /// The parts of the profile that are shown.
    pub fn summary(&self) -> (r: ProfileSummary)
        ensures
            r == self.spec_summary(),
    {
        ProfileSummary {
            profile_id: self.profile_id.clone(),
            created_at_utc: self.created_at_utc.clone(),
            model_version: self.model_version.clone(),
            embedding_count: self.embedding_count,
            suggested_threshold: self.suggested_threshold,
            prompt_count: self.prompt_count,
            quality_severity: self.quality_severity.clone(),
            quality_warning_count: self.quality_warning_count,
            quality_error_count: self.quality_error_count,
        }
    }
}

impl ProfileSummary {
    pub open spec fn spec_label(self) -> Seq<char> {
        self.profile_id@ + " | "@ + self.created_at_utc@ + " | "@ + text::decimal(
            self.prompt_count as nat,
        ) + " 条提示词 | "@ + text::decimal(self.embedding_count as nat) + " 个 embedding"@
    }

    /// The summary in one line.
    pub fn label(&self) -> (r: String)
        ensures
            r@ == self.spec_label(),
    {
        let prompts = text::decimal_text(self.prompt_count as u64);
        let embeddings = text::decimal_text(self.embedding_count as u64);
        let mut label = text::joined3(
            self.profile_id.as_str(),
            " | ",
            self.created_at_utc.as_str(),
        );
        label.append(" | ");
        label.append(prompts.as_str());
        label.append(" 条提示词 | ");
        label.append(embeddings.as_str());
        label.append(" 个 embedding");
        label
    }

    /// Whether the profile says nothing of the voice itself.
    pub fn is_metadata_only(&self) -> (r: bool)
        ensures
            r == (self.embedding_count == 0),
    {
        self.embedding_count == 0
    }
}

/// Where profiles are stored.
#[derive(Debug)]
pub struct SpeakerProfileStore {
    pub root: String,
}

impl SpeakerProfileStore {
    /// The path of the default profile below `root`.
    pub open spec fn profile_path_in(root: Seq<char>) -> Seq<char> {
        path::below(path::below(root, DEFAULT_PROFILE_ID@), PROFILE_FILENAME@)
    }

    /// The store of the program.
    pub fn new() -> (r: Self)
        ensures
            r.root@ == PROFILES_DIR@,
    {
        SpeakerProfileStore::new_in(PROFILES_DIR)
    }

    /// A store in the directory `root`.
    pub fn new_in(root: &str) -> (r: Self)
        ensures
            r.root@ == root@,
    {
        SpeakerProfileStore { root: root.to_owned() }
    }

    pub fn root(&self) -> (r: &str)
        ensures
            r@ == self.root@,
    {
        self.root.as_str()
    }

    /// The directory of the default profile.
    pub fn default_profile_dir(&self) -> (r: String)
        ensures
            r@ == path::below(self.root@, DEFAULT_PROFILE_ID@),
    {
        path::join_path(self.root.as_str(), DEFAULT_PROFILE_ID)
    }

    /// The file of the default profile.
    pub fn default_profile_path(&self) -> (r: String)
        ensures
            r@ == SpeakerProfileStore::profile_path_in(self.root@),
    {
        let dir = self.default_profile_dir();
        path::join_path(dir.as_str(), PROFILE_FILENAME)
    }

    /// What can be shown of the default profile, given what stands in its file;
    /// nothing where there is no file.
    pub fn load_default_profile_summary(&self, stored: Option<&SpeakerProfile>) -> (r: Option<
        ProfileSummary,
    >)
        ensures
            r == match stored {
                Some(profile) => Some(profile.spec_summary()),
                None => None,
            },
    {
        match stored {
            Some(profile) => Some(profile.summary()),
            None => None,
        }
    }
}

/// Two profiles show the same summary exactly where they share all that is shown.
pub proof fn summaries_show_the_profile(a: SpeakerProfile, b: SpeakerProfile)
    ensures
        a.spec_summary() == b.spec_summary() <==> {
            &&& a.profile_id == b.profile_id
            &&& a.created_at_utc == b.created_at_utc
            &&& a.model_version == b.model_version
            &&& a.embedding_count == b.embedding_count
            &&& a.suggested_threshold == b.suggested_threshold
            &&& a.prompt_count == b.prompt_count
            &&& a.quality_severity == b.quality_severity
            &&& a.quality_warning_count == b.quality_warning_count
            &&& a.quality_error_count == b.quality_error_count
        },
        a.spec_summary().embedding_count == a.embedding_count,
        a.spec_summary().prompt_count == a.prompt_count,
        a.spec_summary().quality_warning_count == a.quality_warning_count,
        a.spec_summary().quality_error_count == a.quality_error_count,
        a.spec_summary().suggested_threshold == a.suggested_threshold,
{
}

/// The default profile stands in a directory of its own below the root.
pub proof fn profile_stands_below_root(root: Seq<char>)
    requires
        root.len() > 0,
        root.last() != '/',
    ensures
        SpeakerProfileStore::profile_path_in(root) == root + seq!['/'] + "default"@ + seq!['/']
            + "speaker_profile.json"@,
{
    reveal_strlit("default");
    assert(SpeakerProfileStore::profile_path_in(root) =~= root + seq!['/'] + "default"@ + seq!['/']
        + "speaker_profile.json"@);
}

} // verus!
