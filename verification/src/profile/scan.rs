//! Finding earlier recordings in the recordings directory.

use crate::profile::quality;
use crate::profile::record::{RecordedClip, RecordingTakeKind, TrainingRecordingManifest};
use crate::profile::record;
use crate::profile::storage::DEFAULT_PROFILE_ID;
use crate::util::float32::Float32;
use crate::util::path;
use crate::util::text;
use vstd::prelude::*;

verus! {

/// The directory of a profile that holds its recordings.
pub const RECORDINGS_SUBDIR: &'static str = "recordings";

/// Where the recordings of the default profile stand.
pub fn default_recordings_dir() -> (r: String)
    ensures
        r@ == path::below(path::below("profiles"@, DEFAULT_PROFILE_ID@), RECORDINGS_SUBDIR@),
{
    let profile = path::join_path("profiles", DEFAULT_PROFILE_ID);
    path::join_path(profile.as_str(), RECORDINGS_SUBDIR)
}

/// The takes that an enrollment with `prompt_count` prompts asks for, in order.
pub open spec fn expected_takes(prompt_count: nat) -> Seq<RecordingTakeKind> {
    Seq::new(
        prompt_count + 2,
        |i: int|
            if i == 0 {
                RecordingTakeKind::AmbientSilence
            } else if i <= prompt_count {
                RecordingTakeKind::FixedPrompt { index: (i - 1) as usize }
            } else {
                RecordingTakeKind::FreeSpeech
            },
    )
}

/// Where the recording of a take is expected.
pub open spec fn expected_path(dir: Seq<char>, kind: RecordingTakeKind) -> Seq<char> {
    text::with_slashes(path::below(dir, kind.spec_file_name()))
}

/// The takes that are expected and where their recordings should stand.
pub fn expected_recording_entries(recordings_dir: &str, prompt_count: usize) -> (r: Vec<
    (RecordingTakeKind, String),
>)
    requires
        prompt_count + 2 <= usize::MAX,
    ensures
        r@.len() == prompt_count + 2,
        forall|i: int|
            0 <= i < r@.len() ==> (#[trigger] r@[i]).0 == expected_takes(prompt_count as nat)[i]
                && r@[i].1@ == expected_path(recordings_dir@, r@[i].0),
{
    let mut entries: Vec<(RecordingTakeKind, String)> = Vec::new();
    let ambient = RecordingTakeKind::AmbientSilence;
    entries.push((ambient, recording_path(recordings_dir, ambient)));
    let mut index: usize = 0;
    while index < prompt_count
        invariant
            index <= prompt_count,
            prompt_count + 2 <= usize::MAX,
            entries@.len() == index + 1,
            forall|i: int|
                0 <= i < entries@.len() ==> (#[trigger] entries@[i]).0 == expected_takes(
                    prompt_count as nat,
                )[i] && entries@[i].1@ == expected_path(recordings_dir@, entries@[i].0),
        decreases prompt_count - index,
    {
        let kind = RecordingTakeKind::FixedPrompt { index };
        entries.push((kind, recording_path(recordings_dir, kind)));
        index = index + 1;
    }
    let free_speech = RecordingTakeKind::FreeSpeech;
    entries.push((free_speech, recording_path(recordings_dir, free_speech)));
    entries
}

/// Where the recording of a take stands in `recordings_dir`.
pub fn recording_path(recordings_dir: &str, kind: RecordingTakeKind) -> (r: String)
    requires
        kind.is_numbered(),
    ensures
        r@ == expected_path(recordings_dir@, kind),
{
    let name = kind.file_name();
    let joined = path::join_path(recordings_dir, name.as_str());
    path::normalize_relative_path(joined.as_str())
}

/// The expected take whose recording bears the name `file_name`, if any.
pub open spec fn take_named(file_name: Seq<char>, prompt_count: nat) -> Option<RecordingTakeKind> {
    if exists|kind: RecordingTakeKind|
        kind.is_expected(prompt_count) && #[trigger] kind.spec_file_name() == file_name {
        Some(
            choose|kind: RecordingTakeKind|
                kind.is_expected(prompt_count) && #[trigger] kind.spec_file_name() == file_name,
        )
    } else {
        None
    }
}

/// Tells which take a file in the recordings directory holds, by its name.
pub fn take_for_file_name(file_name: &str, prompt_count: usize) -> (r: Option<RecordingTakeKind>)
    ensures
        r == take_named(file_name@, prompt_count as nat),
        r matches Some(kind) ==> kind.is_expected(prompt_count as nat) && kind.spec_file_name()
            == file_name@,
        r is None ==> forall|kind: RecordingTakeKind|
            kind.is_expected(prompt_count as nat) ==> #[trigger] kind.spec_file_name() != file_name@,
{
    let wanted = file_name.to_owned();
    if RecordingTakeKind::AmbientSilence.file_name() == wanted {
        proof {
            lemma_take_named(
                RecordingTakeKind::AmbientSilence,
                file_name@,
                prompt_count as nat,
            );
        }
        return Some(RecordingTakeKind::AmbientSilence);
    }
    if RecordingTakeKind::FreeSpeech.file_name() == wanted {
        proof {
            lemma_take_named(RecordingTakeKind::FreeSpeech, file_name@, prompt_count as nat);
        }
        return Some(RecordingTakeKind::FreeSpeech);
    }
    let mut index: usize = 0;
    while index < prompt_count
        invariant
            index <= prompt_count,
            wanted@ == file_name@,
            RecordingTakeKind::AmbientSilence.spec_file_name() != file_name@,
            RecordingTakeKind::FreeSpeech.spec_file_name() != file_name@,
            forall|k: usize|
                k < index ==> #[trigger] (RecordingTakeKind::FixedPrompt {
                    index: k,
                }).spec_file_name() != file_name@,
        decreases prompt_count - index,
    {
        let kind = RecordingTakeKind::FixedPrompt { index };
        if kind.file_name() == wanted {
            proof {
                lemma_take_named(kind, file_name@, prompt_count as nat);
            }
            return Some(kind);
        }
        index = index + 1;
    }
    assert forall|kind: RecordingTakeKind|
        kind.is_expected(prompt_count as nat) implies #[trigger] kind.spec_file_name()
        != file_name@ by {
        match kind {
            RecordingTakeKind::FixedPrompt { index: k } => {
                assert((RecordingTakeKind::FixedPrompt { index: k }).spec_file_name()
                    != file_name@);
            },
            _ => {},
        }
    }
    None
}

proof fn lemma_take_named(kind: RecordingTakeKind, file_name: Seq<char>, prompt_count: nat)
    requires
        kind.is_expected(prompt_count),
        kind.spec_file_name() == file_name,
    ensures
        take_named(file_name, prompt_count) == Some(kind),
{
    let found = take_named(file_name, prompt_count)->0;
    assert(found.spec_file_name() == file_name);
    record::file_names_are_distinct(found, kind);
}

// ---------------------------------------------------------------------------
// What stands in the directory
// ---------------------------------------------------------------------------
/// What was measured of the audio in a recording.
#[derive(Debug, Clone, Copy)]
pub struct RecordingFacts {
    pub sample_rate_hz: u32,
    pub sample_count: usize,
    pub peak_linear: Float32,
    pub duration_seconds: Float32,
}

/// What came of reading a directory entry.
#[derive(Debug)]
pub enum EntryContent {
    /// The entry was not read, since it is none of the expected files.
    NotRead,
    /// The file could not be read as a recording.
    Unreadable { reason: String },
    /// The file holds a recording.
    Recording { facts: RecordingFacts },
}

/// An entry of the recordings directory.
#[derive(Debug)]
pub struct DirectoryEntry {
    pub file_name: String,
    pub path: String,
    pub is_file: bool,
    pub content: EntryContent,
}

/// Why a recording cannot be used.
#[derive(Debug, Clone, Copy, PartialEq, Eq)]
pub enum ClipError {
    /// The recording says that it has no samples per second.
    NoSampleRate,
}

impl ClipError {
    /// The error in words.
    pub fn message(self, path: &str) -> (r: String)
        ensures
            r@ == "recording sample rate must be positive: "@ + path@,
    {
        text::joined("recording sample rate must be positive: ", path)
    }
}

/// Whether `clip` is the recording of `kind` at `path` with what was measured.
pub open spec fn is_clip_of(
    clip: RecordedClip,
    kind: RecordingTakeKind,
    path: Seq<char>,
    facts: RecordingFacts,
) -> bool {
    &&& clip.kind == kind
    &&& clip.label@ == kind.spec_label()
    &&& clip.relative_path@ == text::with_slashes(path)
    &&& clip.duration_seconds == facts.duration_seconds
    &&& clip.sample_rate_hz == facts.sample_rate_hz
    &&& clip.sample_count == facts.sample_count
    &&& clip.peak_linear == facts.peak_linear
}

/// What is measured of a recording, given its samples and their duration.
pub fn recording_facts(
    sample_rate_hz: u32,
    samples: &Vec<Float32>,
    duration_seconds: Float32,
) -> (r: RecordingFacts)
    ensures
        r.sample_rate_hz == sample_rate_hz,
        r.sample_count == samples@.len(),
        r.peak_linear == quality::peak_magnitude(samples@),
        r.duration_seconds == duration_seconds,
{
    RecordingFacts {
        sample_rate_hz,
        sample_count: samples.len(),
        peak_linear: quality::peak_linear(samples),
        duration_seconds,
    }
}

/// The recording of `kind` that was just made and written to `path`.
pub fn finished_clip(kind: RecordingTakeKind, path: &str, facts: RecordingFacts) -> (r: RecordedClip)
    requires
        kind.is_numbered(),
    ensures
        is_clip_of(r, kind, path@, facts),
{
    RecordedClip {
        kind,
        label: kind.label(),
        relative_path: path::normalize_relative_path(path),
        duration_seconds: facts.duration_seconds,
        sample_rate_hz: facts.sample_rate_hz,
        sample_count: facts.sample_count,
        peak_linear: facts.peak_linear,
    }
}

/// The recording of `kind` at `path`, from what was measured of it.
pub fn load_recorded_clip_from_path(
    kind: RecordingTakeKind,
    path: &str,
    facts: RecordingFacts,
) -> (r: Result<RecordedClip, ClipError>)
    requires
        kind.is_numbered(),
    ensures
        r is Ok <==> facts.sample_rate_hz > 0,
        r matches Ok(clip) ==> is_clip_of(clip, kind, path@, facts),
        r matches Err(error) ==> error == ClipError::NoSampleRate,
{
    if facts.sample_rate_hz == 0 {
        return Err(ClipError::NoSampleRate);
    }
    Ok(finished_clip(kind, path, facts))
}

/// What an entry turns out to be.
pub enum Finding {
    /// Nothing that the enrollment asks for.
    Unexpected,
    /// An expected file that holds no usable recording, and why.
    Invalid(Seq<char>),
    /// The recording of a take.
    Take(RecordingTakeKind, RecordingFacts),
}

pub open spec fn finding(entry: DirectoryEntry, prompt_count: nat) -> Finding {
    match take_named(entry.file_name@, prompt_count) {
        None => Finding::Unexpected,
        Some(kind) => if !entry.is_file {
            Finding::Unexpected
        } else {
            match entry.content {
                EntryContent::NotRead => Finding::Unexpected,
                EntryContent::Unreadable { reason } => Finding::Invalid(reason@),
                EntryContent::Recording { facts } => if facts.sample_rate_hz == 0 {
                    Finding::Invalid("recording sample rate must be positive: "@ + entry.path@)
                } else {
                    Finding::Take(kind, facts)
                },
            }
        },
    }
}

/// The paths of the entries that are not expected, in the order of listing.
pub open spec fn unexpected_paths(entries: Seq<DirectoryEntry>, prompt_count: nat) -> Seq<Seq<char>>
    decreases entries.len(),
{
    if entries.len() == 0 {
        seq![]
    } else {
        let rest = unexpected_paths(entries.drop_last(), prompt_count);
        match finding(entries.last(), prompt_count) {
            Finding::Unexpected => rest.push(text::with_slashes(entries.last().path@)),
            _ => rest,
        }
    }
}

/// The paths of the unusable recordings, each with the reason.
pub open spec fn invalid_notes(entries: Seq<DirectoryEntry>, prompt_count: nat) -> Seq<Seq<char>>
    decreases entries.len(),
{
    if entries.len() == 0 {
        seq![]
    } else {
        let rest = invalid_notes(entries.drop_last(), prompt_count);
        match finding(entries.last(), prompt_count) {
            Finding::Invalid(reason) => rest.push(
                text::with_slashes(entries.last().path@) + "："@ + reason,
            ),
            _ => rest,
        }
    }
}

/// The position of the last of the first `n` entries that holds the take
/// `kind`, or -1.
pub open spec fn last_take(
    entries: Seq<DirectoryEntry>,
    prompt_count: nat,
    kind: RecordingTakeKind,
    n: int,
) -> int
    decreases n,
{
    if n <= 0 {
        -1
    } else {
        match finding(entries[n - 1], prompt_count) {
            Finding::Take(found, _) => if found == kind {
                n - 1
            } else {
                last_take(entries, prompt_count, kind, n - 1)
            },
            _ => last_take(entries, prompt_count, kind, n - 1),
        }
    }
}

/// Whether the slot of `kind` holds what the first `n` entries have for it.
pub open spec fn slot_agrees(
    manifest: TrainingRecordingManifest,
    entries: Seq<DirectoryEntry>,
    prompt_count: nat,
    kind: RecordingTakeKind,
    n: int,
) -> bool {
    let at = last_take(entries, prompt_count, kind, n);
    if at < 0 {
        manifest.slot(kind) is None
    } else {
        &&& manifest.slot(kind) matches Some(clip)
        &&& finding(entries[at], prompt_count) matches Finding::Take(_, facts)
        &&& is_clip_of(clip, kind, entries[at].path@, facts)
    }
}

/// The recordings that an earlier run left behind.
#[derive(Debug, Clone)]
pub struct DetectedTrainingRecordings {
    pub manifest: TrainingRecordingManifest,
    pub missing_paths: Vec<String>,
    pub unexpected_entries: Vec<String>,
    pub invalid_entries: Vec<String>,
}

/// The expected paths among the first `n` takes for which nothing is recorded.
pub open spec fn missing_among(
    manifest: TrainingRecordingManifest,
    dir: Seq<char>,
    prompt_count: nat,
    n: int,
) -> Seq<Seq<char>>
    decreases n,
{
    if n <= 0 {
        seq![]
    } else {
        let rest = missing_among(manifest, dir, prompt_count, n - 1);
        let kind = expected_takes(prompt_count)[n - 1];
        if manifest.slot(kind) is None {
            rest.push(expected_path(dir, kind))
        } else {
            rest
        }
    }
}

impl DetectedTrainingRecordings {
    /// Whether this is what `entries` of the directory `dir` amount to.
    pub open spec fn describes(
        self,
        dir: Seq<char>,
        prompt_count: nat,
        entries: Seq<DirectoryEntry>,
    ) -> bool {
        &&& self.manifest.fixed_prompts@.len() == prompt_count
        &&& forall|kind: RecordingTakeKind|
            kind.is_expected(prompt_count) ==> #[trigger] slot_agrees(
                self.manifest,
                entries,
                prompt_count,
                kind,
                entries.len() as int,
            )
        &&& text::texts(self.missing_paths@) == missing_among(
            self.manifest,
            dir,
            prompt_count,
            prompt_count as int + 2,
        )
        &&& text::texts_sorted(text::texts(self.unexpected_entries@))
        &&& text::texts(self.unexpected_entries@).to_multiset() == unexpected_paths(
            entries,
            prompt_count,
        ).to_multiset()
        &&& text::texts_sorted(text::texts(self.invalid_entries@))
        &&& text::texts(self.invalid_entries@).to_multiset() == invalid_notes(
            entries,
            prompt_count,
        ).to_multiset()
    }

    /// How many recordings were recognized.
    pub fn recognized_count(&self) -> (r: usize)
        ensures
            r == self.manifest.clips().len(),
    {
        source_recordings_from_manifest(&self.manifest).len()
    }

    /// Whether every take was found.
    pub fn is_complete(&self) -> (r: bool)
        ensures
            r == self.manifest.complete(),
    {
        self.manifest.is_complete()
    }

    /// Whether there is anything to load.
    pub fn can_load(&self) -> (r: bool)
        ensures
            r == (self.manifest.clips().len() > 0),
    {
        self.recognized_count() > 0
    }
}

/// The files of a sequence of clips.
pub open spec fn clip_paths(clips: Seq<RecordedClip>) -> Seq<Seq<char>> {
    clips.map_values(|clip: RecordedClip| clip.relative_path@)
}

proof fn lemma_clip_paths_push(clips: Seq<RecordedClip>, slot: Option<RecordedClip>)
    ensures
        clip_paths(clips + record::at_most_one(slot)) == match slot {
            Some(clip) => clip_paths(clips).push(clip.relative_path@),
            None => clip_paths(clips),
        },
{
    match slot {
        Some(clip) => {
            assert(clip_paths(clips + record::at_most_one(slot)) =~= clip_paths(clips).push(
                clip.relative_path@,
            ));
        },
        None => {
            assert(clips + record::at_most_one(slot) =~= clips);
        },
    }
}

/// The files of all that is recorded, in the order of the enrollment.
pub fn source_recordings_from_manifest(manifest: &TrainingRecordingManifest) -> (r: Vec<String>)
    ensures
        text::texts(r@) == clip_paths(manifest.clips()),
        r@.len() == manifest.clips().len(),
{
    let mut sources: Vec<String> = Vec::new();
    if let Some(clip) = &manifest.ambient_silence {
        sources.push(clip.relative_path.clone());
    }
    let ghost head = record::at_most_one(manifest.ambient_silence);
    let ghost slots = manifest.fixed_prompts@;
    assert(text::texts(sources@) =~= clip_paths(head + record::present(slots.take(0))));
    let mut i: usize = 0;
    while i < manifest.fixed_prompts.len()
        invariant
            i <= manifest.fixed_prompts.len(),
            slots == manifest.fixed_prompts@,
            text::texts(sources@) == clip_paths(head + record::present(slots.take(i as int))),
        decreases manifest.fixed_prompts.len() - i,
    {
        assert(slots.take(i + 1).drop_last() =~= slots.take(i as int));
        let ghost done = head + record::present(slots.take(i as int));
        let ghost before = text::texts(sources@);
        assert(head + record::present(slots.take(i + 1)) =~= done + record::at_most_one(
            slots[i as int],
        ));
        if let Some(clip) = &manifest.fixed_prompts[i] {
            sources.push(clip.relative_path.clone());
            assert(text::texts(sources@) =~= before.push(clip.relative_path@));
        }
        proof {
            lemma_clip_paths_push(done, slots[i as int]);
        }
        i = i + 1;
    }
    assert(slots.take(i as int) =~= slots);
    let ghost before = text::texts(sources@);
    if let Some(clip) = &manifest.free_speech {
        sources.push(clip.relative_path.clone());
        assert(text::texts(sources@) =~= before.push(clip.relative_path@));
    }
    proof {
        lemma_clip_paths_push(head + record::present(slots), manifest.free_speech);
    }
    assert(text::texts(sources@).len() == sources@.len());
    sources
}

/// Sorts out the recordings directory: what is recorded of each take, what is
/// missing, what does not belong there and what cannot be used. `listing` is
/// `None` where there is no such directory; nothing is found in that case, nor
/// where the directory is empty.
pub fn scan_recordings_dir(
    recordings_dir: &str,
    prompt_count: usize,
    listing: Option<Vec<DirectoryEntry>>,
) -> (r: Option<DetectedTrainingRecordings>)
    requires
        prompt_count + 2 <= usize::MAX,
    ensures
        r is Some <==> (listing matches Some(entries) && entries@.len() > 0),
        r matches Some(detected) ==> detected.describes(
            recordings_dir@,
            prompt_count as nat,
            listing->0@,
        ),
{
    let entries = match listing {
        Some(entries) => entries,
        None => {
            return None;
        },
    };
    let ghost count = prompt_count as nat;
    let mut manifest = TrainingRecordingManifest::new(prompt_count);
    let mut unexpected: Vec<String> = Vec::new();
    let mut invalid: Vec<String> = Vec::new();
    let mut i: usize = 0;
    assert(text::texts(unexpected@) =~= unexpected_paths(entries@.take(0), count));
    assert(text::texts(invalid@) =~= invalid_notes(entries@.take(0), count));
    while i < entries.len()
        invariant
            i <= entries.len(),
            count == prompt_count,
            manifest.fixed_prompts@.len() == count,
            forall|kind: RecordingTakeKind|
                kind.is_expected(count) ==> #[trigger] slot_agrees(
                    manifest,
                    entries@,
                    count,
                    kind,
                    i as int,
                ),
            text::texts(unexpected@) == unexpected_paths(entries@.take(i as int), count),
            text::texts(invalid@) == invalid_notes(entries@.take(i as int), count),
            unexpected@.len() + invalid@.len() <= i,
            unexpected@.len() + invalid@.len() < i ==> exists|k: int|
                0 <= k < i && finding(#[trigger] entries@[k], count) is Take,
        decreases entries.len() - i,
    {
        let entry = &entries[i];
        let ghost found = finding(*entry, count);
        let ghost old_unexpected = text::texts(unexpected@);
        let ghost old_invalid = text::texts(invalid@);
        let ghost old_manifest = manifest;
        assert(entries@.take(i + 1).drop_last() =~= entries@.take(i as int));
        let relative_path = path::normalize_relative_path(entry.path.as_str());
        let ghost shown = relative_path@;
        match take_for_file_name(entry.file_name.as_str(), prompt_count) {
            None => {
                unexpected.push(relative_path);
            },
            Some(kind) => {
                if !entry.is_file {
                    unexpected.push(relative_path);
                } else {
                    match &entry.content {
                        EntryContent::NotRead => {
                            unexpected.push(relative_path);
                        },
                        EntryContent::Unreadable { reason } => {
                            invalid.push(
                                text::joined3(relative_path.as_str(), "：", reason.as_str()),
                            );
                        },
                        EntryContent::Recording { facts } => {
                            match load_recorded_clip_from_path(kind, entry.path.as_str(), *facts) {
                                Ok(clip) => {
                                    manifest.register(clip);
                                },
                                Err(error) => {
                                    let reason = error.message(entry.path.as_str());
                                    invalid.push(
                                        text::joined3(relative_path.as_str(), "：", reason.as_str()),
                                    );
                                },
                            }
                        },
                    }
                }
            },
        }
        proof {
            match found {
                Finding::Unexpected => {
                    assert(text::texts(unexpected@) =~= old_unexpected.push(shown));
                },
                Finding::Invalid(reason) => {
                    assert(text::texts(invalid@) =~= old_invalid.push(shown + "："@ + reason));
                },
                Finding::Take(_, _) => {
                    assert(finding(entries@[i as int], count) is Take);
                },
            }
            assert forall|kind: RecordingTakeKind| kind.is_expected(count) implies #[trigger] slot_agrees(
                manifest,
                entries@,
                count,
                kind,
                i + 1,
            ) by {
                assert(slot_agrees(old_manifest, entries@, count, kind, i as int));
                assert(manifest.slot(kind) == old_manifest.slot(kind) || (found matches Finding::Take(
                    k,
                    _,
                ) && k == kind));
            }
        }
        i = i + 1;
    }
    assert(entries@.take(i as int) =~= entries@);

    let expected = expected_recording_entries(recordings_dir, prompt_count);
    let mut missing_paths: Vec<String> = Vec::new();
    let mut j: usize = 0;
    assert(text::texts(missing_paths@) =~= missing_among(manifest, recordings_dir@, count, 0));
    while j < expected.len()
        invariant
            j <= expected.len(),
            expected@.len() == count + 2,
            forall|k: int|
                0 <= k < expected@.len() ==> (#[trigger] expected@[k]).0 == expected_takes(count)[k]
                    && expected@[k].1@ == expected_path(recordings_dir@, expected@[k].0),
            text::texts(missing_paths@) == missing_among(
                manifest,
                recordings_dir@,
                count,
                j as int,
            ),
        decreases expected.len() - j,
    {
        let ghost before = text::texts(missing_paths@);
        if manifest.get(expected[j].0).is_none() {
            missing_paths.push(expected[j].1.clone());
            assert(text::texts(missing_paths@) =~= before.push(expected@[j as int].1@));
        }
        j = j + 1;
    }

    if manifest.recorded_prompt_count() == 0 && manifest.ambient_silence.is_none()
        && manifest.free_speech.is_none() && unexpected.is_empty() && invalid.is_empty() {
        proof {
            if entries@.len() > 0 {
                let k = choose|k: int|
                    0 <= k < i && finding(#[trigger] entries@[k], count) is Take;
                lemma_take_fills_slot(manifest, entries@, count, k);
            }
        }
        return None;
    }
    proof {
        if entries@.len() == 0 {
            assert(entries@ =~= Seq::<DirectoryEntry>::empty());
            lemma_empty_finds_nothing(manifest, count);
        }
    }
    Some(
        DetectedTrainingRecordings {
            manifest,
            missing_paths,
            unexpected_entries: text::sorted_texts(unexpected),
            invalid_entries: text::sorted_texts(invalid),
        },
    )
}

proof fn lemma_last_take_at_least(
    entries: Seq<DirectoryEntry>,
    prompt_count: nat,
    kind: RecordingTakeKind,
    k: int,
    n: int,
)
    requires
        0 <= k < n <= entries.len(),
        finding(entries[k], prompt_count) matches Finding::Take(found, _) && found == kind,
    ensures
        k <= last_take(entries, prompt_count, kind, n) < n,
    decreases n,
{
    if n - 1 != k {
        lemma_last_take_at_least(entries, prompt_count, kind, k, n - 1);
    }
}

/// A recording that was read is in the manifest.
proof fn lemma_take_fills_slot(
    manifest: TrainingRecordingManifest,
    entries: Seq<DirectoryEntry>,
    prompt_count: nat,
    k: int,
)
    requires
        0 <= k < entries.len(),
        manifest.fixed_prompts@.len() == prompt_count,
        finding(entries[k], prompt_count) is Take,
        forall|kind: RecordingTakeKind|
            kind.is_expected(prompt_count) ==> #[trigger] slot_agrees(
                manifest,
                entries,
                prompt_count,
                kind,
                entries.len() as int,
            ),
    ensures
        manifest.ambient_silence is Some || manifest.free_speech is Some || record::present(
            manifest.fixed_prompts@,
        ).len() > 0,
{
    let kind = finding(entries[k], prompt_count)->Take_0;
    assert(kind.is_expected(prompt_count));
    assert(slot_agrees(manifest, entries, prompt_count, kind, entries.len() as int));
    lemma_last_take_at_least(entries, prompt_count, kind, k, entries.len() as int);
    assert(manifest.slot(kind) is Some);
    match kind {
        RecordingTakeKind::FixedPrompt { index } => {
            lemma_present_nonempty(manifest.fixed_prompts@, index as int);
        },
        _ => {},
    }
}

proof fn lemma_present_nonempty(slots: Seq<Option<RecordedClip>>, k: int)
    requires
        0 <= k < slots.len(),
        slots[k] is Some,
    ensures
        record::present(slots).len() > 0,
    decreases slots.len(),
{
    if k < slots.len() - 1 {
        assert(slots.drop_last()[k] == slots[k]);
        lemma_present_nonempty(slots.drop_last(), k);
    }
}

proof fn lemma_empty_finds_nothing(manifest: TrainingRecordingManifest, prompt_count: nat)
    requires
        manifest.fixed_prompts@.len() == prompt_count,
        prompt_count <= usize::MAX,
        forall|kind: RecordingTakeKind|
            kind.is_expected(prompt_count) ==> #[trigger] slot_agrees(
                manifest,
                Seq::<DirectoryEntry>::empty(),
                prompt_count,
                kind,
                0,
            ),
    ensures
        manifest.ambient_silence is None,
        manifest.free_speech is None,
        record::present(manifest.fixed_prompts@).len() == 0,
{
    let none = Seq::<DirectoryEntry>::empty();
    assert(slot_agrees(manifest, none, prompt_count, RecordingTakeKind::AmbientSilence, 0));
    assert(slot_agrees(manifest, none, prompt_count, RecordingTakeKind::FreeSpeech, 0));
    assert forall|k: int| 0 <= k < prompt_count implies manifest.fixed_prompts@[k] is None by {
        assert(slot_agrees(
            manifest,
            none,
            prompt_count,
            RecordingTakeKind::FixedPrompt { index: k as usize },
            0,
        ));
    }
    record::lemma_present_empty(manifest.fixed_prompts@);
}

/// A path is reported missing exactly as long as a take is not recorded.
pub proof fn nothing_is_missing_when_complete(
    detected: DetectedTrainingRecordings,
    dir: Seq<char>,
    prompt_count: nat,
    entries: Seq<DirectoryEntry>,
)
    requires
        prompt_count + 2 <= usize::MAX,
        detected.describes(dir, prompt_count, entries),
    ensures
        detected.missing_paths@.len() == 0 <==> detected.manifest.complete(),
{
    let manifest = detected.manifest;
    let n = prompt_count as int + 2;
    assert(text::texts(detected.missing_paths@).len() == detected.missing_paths@.len());
    lemma_missing_among(manifest, dir, prompt_count, n);
    let takes = expected_takes(prompt_count);
    if missing_among(manifest, dir, prompt_count, n).len() == 0 {
        assert(manifest.slot(takes[0]) is Some);
        assert(manifest.slot(takes[n - 1]) is Some);
        assert forall|i: int| 0 <= i < prompt_count implies manifest.fixed_prompts@[i] is Some by {
            assert(manifest.slot(takes[i + 1]) is Some);
        }
    }
    if manifest.complete() {
        assert forall|i: int| 0 <= i < n implies manifest.slot(#[trigger] takes[i]) is Some by {
            if 1 <= i <= prompt_count {
                assert(manifest.fixed_prompts@[i - 1] is Some);
            }
        }
    }
}

proof fn lemma_missing_among(
    manifest: TrainingRecordingManifest,
    dir: Seq<char>,
    prompt_count: nat,
    n: int,
)
    requires
        0 <= n <= prompt_count + 2,
    ensures
        missing_among(manifest, dir, prompt_count, n).len() == 0 <==> forall|i: int|
            0 <= i < n ==> manifest.slot(#[trigger] expected_takes(prompt_count)[i]) is Some,
    decreases n,
{
    if n > 0 {
        lemma_missing_among(manifest, dir, prompt_count, n - 1);
        if missing_among(manifest, dir, prompt_count, n).len() == 0 {
            assert forall|i: int| 0 <= i < n implies manifest.slot(
                #[trigger] expected_takes(prompt_count)[i],
            ) is Some by {
                if i < n - 1 {
                    assert(missing_among(manifest, dir, prompt_count, n - 1).len() == 0);
                }
            }
        }
        if forall|i: int|
            0 <= i < n ==> manifest.slot(#[trigger] expected_takes(prompt_count)[i]) is Some {
            assert(manifest.slot(expected_takes(prompt_count)[n - 1]) is Some);
        }
    }
}

/// A directory that holds a usable recording of every take, and nothing else, is
/// found complete and without fault.
pub proof fn full_directory_is_clean(
    detected: DetectedTrainingRecordings,
    dir: Seq<char>,
    prompt_count: nat,
    entries: Seq<DirectoryEntry>,
)
    requires
        prompt_count + 2 <= usize::MAX,
        detected.describes(dir, prompt_count, entries),
        forall|i: int| 0 <= i < entries.len() ==> finding(#[trigger] entries[i], prompt_count) is Take,
        forall|kind: RecordingTakeKind|
            kind.is_expected(prompt_count) ==> #[trigger] has_recording(
                entries,
                prompt_count,
                kind,
            ),
    ensures
        detected.manifest.complete(),
        detected.missing_paths@.len() == 0,
        detected.unexpected_entries@.len() == 0,
        detected.invalid_entries@.len() == 0,
{
    let manifest = detected.manifest;
    assert forall|kind: RecordingTakeKind|
        kind.is_expected(prompt_count) implies #[trigger] manifest.slot(kind) is Some by {
        assert(has_recording(entries, prompt_count, kind));
        let k = choose|k: int|
            0 <= k < entries.len() && (finding(#[trigger] entries[k], prompt_count) matches Finding::Take(
                found,
                _,
            ) && found == kind);
        lemma_last_take_at_least(entries, prompt_count, kind, k, entries.len() as int);
        assert(slot_agrees(manifest, entries, prompt_count, kind, entries.len() as int));
    }
    assert(manifest.slot(RecordingTakeKind::AmbientSilence) is Some);
    assert(manifest.slot(RecordingTakeKind::FreeSpeech) is Some);
    assert forall|i: int| 0 <= i < manifest.fixed_prompts@.len() implies manifest.fixed_prompts@[i] is Some by {
        assert(manifest.slot(RecordingTakeKind::FixedPrompt { index: i as usize }) is Some);
    }
    nothing_is_missing_when_complete(detected, dir, prompt_count, entries);
    lemma_only_takes(entries, prompt_count);
    lemma_empty_by_multiset(text::texts(detected.unexpected_entries@));
    lemma_empty_by_multiset(text::texts(detected.invalid_entries@));
    assert(text::texts(detected.unexpected_entries@).len() == detected.unexpected_entries@.len());
    assert(text::texts(detected.invalid_entries@).len() == detected.invalid_entries@.len());
}

/// Whether an entry holds a usable recording of the take.
pub open spec fn has_recording(
    entries: Seq<DirectoryEntry>,
    prompt_count: nat,
    kind: RecordingTakeKind,
) -> bool {
    exists|k: int|
        0 <= k < entries.len() && (finding(#[trigger] entries[k], prompt_count) matches Finding::Take(
            found,
            _,
        ) && found == kind)
}

proof fn lemma_only_takes(entries: Seq<DirectoryEntry>, prompt_count: nat)
    requires
        forall|i: int| 0 <= i < entries.len() ==> finding(#[trigger] entries[i], prompt_count) is Take,
    ensures
        unexpected_paths(entries, prompt_count) == Seq::<Seq<char>>::empty(),
        invalid_notes(entries, prompt_count) == Seq::<Seq<char>>::empty(),
    decreases entries.len(),
{
    if entries.len() > 0 {
        let rest = entries.drop_last();
        assert forall|i: int| 0 <= i < rest.len() implies finding(
            #[trigger] rest[i],
            prompt_count,
        ) is Take by {
            assert(rest[i] == entries[i]);
        }
        lemma_only_takes(rest, prompt_count);
        assert(finding(entries.last(), prompt_count) is Take);
    }
}

proof fn lemma_empty_by_multiset(list: Seq<Seq<char>>)
    requires
        list.to_multiset() == Seq::<Seq<char>>::empty().to_multiset(),
    ensures
        list.len() == 0,
{
    broadcast use vstd::seq_lib::group_to_multiset_ensures;

    assert(list.to_multiset().len() == list.len());
    assert(Seq::<Seq<char>>::empty().to_multiset().len() == 0);
}

/// No two takes are expected at the same path.
pub proof fn expected_paths_are_distinct(dir: Seq<char>, a: RecordingTakeKind, b: RecordingTakeKind)
    requires
        expected_path(dir, a) == expected_path(dir, b),
    ensures
        a == b,
{
    let head: Seq<char> = if dir.len() == 0 || dir.last() == '/' {
        dir
    } else {
        dir.push('/')
    };
    let n = head.len() as int;
    let x = a.spec_file_name();
    let y = b.spec_file_name();
    let whole = expected_path(dir, a);
    lemma_file_name_has_no_backslash(a);
    lemma_file_name_has_no_backslash(b);
    assert(path::below(dir, x) =~= head + x);
    assert(path::below(dir, y) =~= head + y);
    assert(whole.subrange(n, whole.len() as int) =~= x);
    assert(whole.subrange(n, whole.len() as int) =~= y);
    record::file_names_are_distinct(a, b);
}

proof fn lemma_file_name_has_no_backslash(kind: RecordingTakeKind)
    ensures
        forall|i: int|
            0 <= i < kind.spec_file_name().len() ==> #[trigger] kind.spec_file_name()[i] != '\\',
{
    reveal_strlit("ambient_silence.wav");
    reveal_strlit("free_speech.wav");
    reveal_strlit("fixed_prompt_");
    reveal_strlit(".wav");
    if kind is FixedPrompt {
        text::lemma_decimal_has_no_backslash((kind->index + 1) as nat);
    }
}

/// A file is known by its name: the name of a take's file tells that take, and a name that is
/// no take's file tells none.
pub proof fn file_names_tell_takes(kind: RecordingTakeKind, prompt_count: nat, name: Seq<char>)
    ensures
        kind.is_expected(prompt_count) ==> take_named(kind.spec_file_name(), prompt_count) == Some(
            kind,
        ),
        take_named(name, prompt_count) matches Some(found) ==> found.is_expected(prompt_count)
            && found.spec_file_name() == name,
        take_named(name, prompt_count) is None ==> !(kind.is_expected(prompt_count)
            && kind.spec_file_name() == name),
{
    if kind.is_expected(prompt_count) {
        lemma_take_named(kind, kind.spec_file_name(), prompt_count);
    }
}

/// An entry counts as a take exactly where it is a file, bears the name of a take that is asked
/// for, and could be read as a recording with a sample rate. Such a file that could not be read,
/// or has no sample rate, is invalid; an entry of any other name, or that is no file, is
/// unexpected.
pub proof fn entries_are_told_apart(entry: DirectoryEntry, kind: RecordingTakeKind, prompt_count: nat)
    requires
        kind.is_expected(prompt_count),
    ensures
        entry.file_name@ == kind.spec_file_name() && entry.is_file ==> match entry.content {
            EntryContent::Recording { facts } => if facts.sample_rate_hz > 0 {
                finding(entry, prompt_count) == Finding::Take(kind, facts)
            } else {
                finding(entry, prompt_count) is Invalid
            },
            EntryContent::Unreadable { reason } => finding(entry, prompt_count)
                == Finding::Invalid(reason@),
            EntryContent::NotRead => finding(entry, prompt_count) is Unexpected,
        },
        finding(entry, prompt_count) matches Finding::Take(found, facts) ==> entry.is_file
            && found.is_expected(prompt_count) && found.spec_file_name() == entry.file_name@
            && facts.sample_rate_hz > 0,
        !entry.is_file ==> finding(entry, prompt_count) is Unexpected,
        (forall|other: RecordingTakeKind|
            other.is_expected(prompt_count) ==> #[trigger] other.spec_file_name()
                != entry.file_name@) ==> finding(entry, prompt_count) is Unexpected,
{
    file_names_tell_takes(kind, prompt_count, entry.file_name@);
}

/// One entry more adds its path, with slashes, to the unexpected ones exactly where it is
/// unexpected, and a note that names it and the reason to the invalid ones exactly where it is
/// invalid.
pub proof fn odd_entries_are_listed(
    entries: Seq<DirectoryEntry>,
    entry: DirectoryEntry,
    prompt_count: nat,
)
    ensures
        unexpected_paths(Seq::<DirectoryEntry>::empty(), prompt_count).len() == 0,
        invalid_notes(Seq::<DirectoryEntry>::empty(), prompt_count).len() == 0,
        unexpected_paths(entries.push(entry), prompt_count) == if finding(
            entry,
            prompt_count,
        ) is Unexpected {
            unexpected_paths(entries, prompt_count).push(text::with_slashes(entry.path@))
        } else {
            unexpected_paths(entries, prompt_count)
        },
        invalid_notes(entries.push(entry), prompt_count) == match finding(entry, prompt_count) {
            Finding::Invalid(reason) => invalid_notes(entries, prompt_count).push(
                text::with_slashes(entry.path@) + "："@ + reason,
            ),
            _ => invalid_notes(entries, prompt_count),
        },
{
    assert(entries.push(entry).drop_last() =~= entries);
    assert(entries.push(entry).last() == entry);
}

/// A take is filled by the last entry that holds it, with what was measured of that entry; a
/// take that no entry holds stays empty.
pub proof fn the_last_recording_counts(
    detected: DetectedTrainingRecordings,
    dir: Seq<char>,
    prompt_count: nat,
    entries: Seq<DirectoryEntry>,
    kind: RecordingTakeKind,
    at: int,
)
    requires
        detected.describes(dir, prompt_count, entries),
        kind.is_expected(prompt_count),
        -1 <= at < entries.len(),
        at >= 0 ==> (finding(entries[at], prompt_count) matches Finding::Take(found, _) && found
            == kind),
        forall|k: int|
            at < k < entries.len() ==> !(finding(#[trigger] entries[k], prompt_count)
                matches Finding::Take(found, _) && found == kind),
    ensures
        at < 0 ==> detected.manifest.slot(kind) is None,
        at >= 0 ==> {
            let facts = finding(entries[at], prompt_count)->Take_1;
            &&& detected.manifest.slot(kind) matches Some(clip)
            &&& clip.kind == kind
            &&& clip.label@ == kind.spec_label()
            &&& clip.relative_path@ == text::with_slashes(entries[at].path@)
            &&& clip.sample_rate_hz == facts.sample_rate_hz
            &&& clip.sample_count == facts.sample_count
            &&& clip.peak_linear == facts.peak_linear
            &&& clip.duration_seconds == facts.duration_seconds
        },
{
    assert(slot_agrees(detected.manifest, entries, prompt_count, kind, entries.len() as int));
    lemma_last_take_is(entries, prompt_count, kind, at, entries.len() as int);
}

proof fn lemma_last_take_is(
    entries: Seq<DirectoryEntry>,
    prompt_count: nat,
    kind: RecordingTakeKind,
    at: int,
    n: int,
)
    requires
        -1 <= at < n || n == 0,
        n == 0 ==> at == -1,
        0 <= n <= entries.len(),
        at >= 0 ==> (finding(entries[at], prompt_count) matches Finding::Take(found, _) && found
            == kind),
        forall|k: int|
            at < k < n ==> !(finding(#[trigger] entries[k], prompt_count)
                matches Finding::Take(found, _) && found == kind),
    ensures
        last_take(entries, prompt_count, kind, n) == at,
    decreases n,
{
    if n > 0 && at != n - 1 {
        assert(!(finding(entries[n - 1], prompt_count) matches Finding::Take(found, _) && found
            == kind));
        lemma_last_take_is(entries, prompt_count, kind, at, n - 1);
    }
}

/// An enrollment asks for the ambient take first, then for the prompts in order, then for the
/// free speech; for each once, and for nothing else.
pub proof fn takes_are_asked_for_in_order(prompt_count: nat, kind: RecordingTakeKind)
    requires
        prompt_count + 2 <= usize::MAX,
    ensures
        expected_takes(prompt_count).len() == prompt_count + 2,
        expected_takes(prompt_count)[0] == RecordingTakeKind::AmbientSilence,
        expected_takes(prompt_count)[prompt_count as int + 1] == RecordingTakeKind::FreeSpeech,
        forall|i: int|
            1 <= i <= prompt_count ==> #[trigger] expected_takes(prompt_count)[i] == (
            RecordingTakeKind::FixedPrompt { index: (i - 1) as usize }),
        expected_takes(prompt_count).contains(kind) <==> kind.is_expected(prompt_count),
{
    let takes = expected_takes(prompt_count);
    if kind.is_expected(prompt_count) {
        match kind {
            RecordingTakeKind::AmbientSilence => {
                assert(takes[0] == kind);
            },
            RecordingTakeKind::FixedPrompt { index } => {
                assert(takes[index + 1] == kind);
            },
            RecordingTakeKind::FreeSpeech => {
                assert(takes[prompt_count as int + 1] == kind);
            },
        }
    }
    if takes.contains(kind) {
        let k = choose|k: int| 0 <= k < takes.len() && takes[k] == kind;
        assert(takes[k].is_expected(prompt_count));
    }
}

/// The place of a take is reported missing exactly where the take is not recorded.
pub proof fn missing_paths_are_the_empty_slots(
    detected: DetectedTrainingRecordings,
    dir: Seq<char>,
    prompt_count: nat,
    entries: Seq<DirectoryEntry>,
    kind: RecordingTakeKind,
)
    requires
        prompt_count + 2 <= usize::MAX,
        detected.describes(dir, prompt_count, entries),
        kind.is_expected(prompt_count),
    ensures
        text::texts(detected.missing_paths@).contains(expected_path(dir, kind))
            <==> detected.manifest.slot(kind) is None,
{
    takes_are_asked_for_in_order(prompt_count, kind);
    let takes = expected_takes(prompt_count);
    let at = choose|k: int| 0 <= k < takes.len() && takes[k] == kind;
    lemma_missing_holds(detected.manifest, dir, prompt_count, prompt_count as int + 2, at);
}

proof fn lemma_missing_holds(
    manifest: TrainingRecordingManifest,
    dir: Seq<char>,
    prompt_count: nat,
    n: int,
    at: int,
)
    requires
        prompt_count + 2 <= usize::MAX,
        0 <= n <= prompt_count + 2,
        0 <= at < prompt_count + 2,
    ensures
        missing_among(manifest, dir, prompt_count, n).contains(
            expected_path(dir, expected_takes(prompt_count)[at]),
        ) <==> at < n && manifest.slot(expected_takes(prompt_count)[at]) is None,
    decreases n,
{
    if n > 0 {
        lemma_missing_holds(manifest, dir, prompt_count, n - 1, at);
        let takes = expected_takes(prompt_count);
        let before = missing_among(manifest, dir, prompt_count, n - 1);
        let all = missing_among(manifest, dir, prompt_count, n);
        let wanted = expected_path(dir, takes[at]);
        if before.contains(wanted) {
            let k = choose|k: int| 0 <= k < before.len() && before[k] == wanted;
            assert(all[k] == wanted);
        }
        if at == n - 1 && manifest.slot(takes[at]) is None {
            assert(all[before.len() as int] == wanted);
        }
        if all.contains(wanted) && !before.contains(wanted) {
            let k = choose|k: int| 0 <= k < all.len() && all[k] == wanted;
            if k < before.len() {
                assert(before[k] == wanted);
            }
            assert(expected_path(dir, takes[n - 1]) == wanted);
            expected_paths_are_distinct(dir, takes[n - 1], takes[at]);
            assert(takes[n - 1] == takes[at]);
        }
    }
}

/// The file of a take stands below the directory of the recordings, under the take's name.
pub proof fn recordings_stand_in_their_directory(dir: Seq<char>, kind: RecordingTakeKind)
    requires
        dir.len() > 0,
        dir.last() != '/',
    ensures
        expected_path(dir, kind) == text::with_slashes(dir) + seq!['/'] + kind.spec_file_name(),
{
    lemma_file_name_has_no_backslash(kind);
    assert(expected_path(dir, kind) =~= text::with_slashes(dir) + seq!['/']
        + kind.spec_file_name());
}

/// The files of a list of clips are theirs, one each and in order.
pub proof fn sources_are_the_clips_files(clips: Seq<RecordedClip>, i: int)
    requires
        0 <= i < clips.len(),
    ensures
        clip_paths(clips).len() == clips.len(),
        clip_paths(clips)[i] == clips[i].relative_path@,
{
}

} // verus!
