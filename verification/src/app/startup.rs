//! What is asked at the start where earlier recordings are found.

use crate::app::state::{StartupRecordingPrompt, StartupRecordingPromptSeverity};
use crate::profile::scan::DetectedTrainingRecordings;
use crate::profile::scan;
use crate::profile::storage::SpeakerProfile;
use crate::util::path;
use crate::util::text;
use vstd::prelude::*;

verus! {

/// What came of looking for the stored profile.
#[derive(Debug)]
pub enum ProfileLookup {
    /// There is none.
    Missing,
    /// It could be read.
    Loaded { profile: SpeakerProfile },
    /// It could not be read.
    Failed { error: String },
}

/// `items`, each with `prefix` before it.
pub open spec fn prefixed(prefix: Seq<char>, items: Seq<Seq<char>>) -> Seq<Seq<char>> {
    items.map_values(|item: Seq<char>| prefix + item)
}

/// Whether the recordings are all there, and nothing else is.
pub open spec fn is_clean(detected: DetectedTrainingRecordings) -> bool {
    &&& detected.manifest.complete()
    &&& detected.unexpected_entries@.len() == 0
    &&& detected.invalid_entries@.len() == 0
}

/// The keys of the files that were found.
pub open spec fn recorded_keys(detected: DetectedTrainingRecordings) -> Set<Seq<char>> {
    scan::clip_paths(detected.manifest.clips()).map_values(
        |p: Seq<char>| path::path_key(p),
    ).to_set()
}

/// Whether a stored profile was made of exactly these recordings.
pub open spec fn profile_matches(
    profile: SpeakerProfile,
    detected: DetectedTrainingRecordings,
) -> bool {
    &&& path::path_key_set(profile.source_recordings@) == recorded_keys(detected)
    &&& is_clean(detected)
}

/// What is said of the recordings themselves.
pub open spec fn recording_details(
    detected: DetectedTrainingRecordings,
    prompt_count: nat,
) -> Seq<Seq<char>> {
    let counted = seq![
        "已识别有效训练录音 "@ + text::decimal(detected.manifest.clips().len()) + "/"@
            + text::decimal(prompt_count + 2) + " 个。"@,
    ];
    let state = if detected.manifest.complete() {
        seq!["环境静音、10 句固定短句和自由发挥录音都已检测到。"@]
    } else {
        seq!["当前训练录音并不完整。"@] + prefixed(
            "缺少："@,
            text::texts(detected.missing_paths@),
        )
    };
    counted + state + prefixed("杂项："@, text::texts(detected.unexpected_entries@)) + prefixed(
        "不可读取："@,
        text::texts(detected.invalid_entries@),
    )
}

/// What is said of the stored profile.
pub open spec fn profile_details(
    detected: DetectedTrainingRecordings,
    lookup: ProfileLookup,
) -> Seq<Seq<char>> {
    match lookup {
        ProfileLookup::Missing => {
            seq!["当前默认 speaker_profile.json 不存在，无法完成一一对应校验。"@]
        },
        ProfileLookup::Loaded { profile } => if profile_matches(profile, detected) {
            seq![]
        } else {
            seq!["当前默认 speaker_profile.json 与录音文件没有一一对应。"@]
        },
        ProfileLookup::Failed { error } => {
            seq![
                "当前默认 speaker_profile.json 读取失败，无法完成一一对应校验："@ + error@,
            ]
        },
    }
}

/// Whether all is well: the recordings are clean, and the stored profile was made
/// of them.
pub open spec fn all_is_well(detected: DetectedTrainingRecordings, lookup: ProfileLookup) -> bool {
    lookup matches ProfileLookup::Loaded { profile } && profile_matches(profile, detected)
}

/// Whether `prompt` is what is to be asked.
pub open spec fn is_prompt_for(
    prompt: StartupRecordingPrompt,
    detected: DetectedTrainingRecordings,
    prompt_count: nat,
    lookup: ProfileLookup,
) -> bool {
    &&& prompt.detected_recordings == detected
    &&& text::texts(prompt.details@) == recording_details(detected, prompt_count)
        + profile_details(detected, lookup)
    &&& if all_is_well(detected, lookup) {
        &&& prompt.severity == StartupRecordingPromptSeverity::Info
        &&& prompt.title@ == "检测到之前保存的录音"@
        &&& prompt.summary@
            == "当前录音文件齐全，并且与 `profiles/default/speaker_profile.json` 一一对应。"@
    } else {
        &&& prompt.severity == StartupRecordingPromptSeverity::Warning
        &&& prompt.title@ == "检测到旧训练录音，但目录状态需要注意"@
        &&& prompt.summary@
            == "当前录音文件不完整、存在杂项，或与默认 profile 不一一对应。你仍可选择加载文件或全部覆盖重录。"@
    }
}

fn add_detail(details: &mut Vec<String>, detail: String)
    ensures
        text::texts(final(details)@) == text::texts(old(details)@) + seq![detail@],
{
    let ghost before = text::texts(details@);
    let ghost said = detail@;
    details.push(detail);
    assert(text::texts(details@) =~= before + seq![said]);
}

fn add_prefixed(details: &mut Vec<String>, prefix: &str, items: &Vec<String>)
    ensures
        text::texts(final(details)@) == text::texts(old(details)@) + prefixed(
            prefix@,
            text::texts(items@),
        ),
{
    let ghost before = text::texts(details@);
    let ghost all = prefixed(prefix@, text::texts(items@));
    let mut i: usize = 0;
    assert(text::texts(details@) =~= before + all.take(0));
    while i < items.len()
        invariant
            i <= items.len(),
            all == prefixed(prefix@, text::texts(items@)),
            text::texts(details@) == before + all.take(i as int),
        decreases items.len() - i,
    {
        let ghost done = text::texts(details@);
        add_detail(details, text::joined(prefix, items[i].as_str()));
        assert(all[i as int] == prefix@ + items@[i as int]@);
        i = i + 1;
        assert(text::texts(details@) =~= before + all.take(i as int));
    }
    assert(all.take(i as int) =~= all);
}

/// Says what is to be said of the recordings themselves.
fn describe_recordings(detected: &DetectedTrainingRecordings, prompt_count: usize) -> (r: Vec<
    String,
>)
    requires
        prompt_count + 2 <= usize::MAX,
    ensures
        text::texts(r@) == recording_details(*detected, prompt_count as nat),
{
    let mut details: Vec<String> = Vec::new();
    let count = text::decimal_text(detected.recognized_count() as u64);
    let total = text::decimal_text(prompt_count as u64 + 2);
    let mut counted = text::joined3("已识别有效训练录音 ", count.as_str(), "/");
    counted.append(total.as_str());
    counted.append(" 个。");
    let ghost said = counted@;
    add_detail(&mut details, counted);
    assert(text::texts(details@) =~= seq![said]);
    if detected.is_complete() {
        add_detail(
            &mut details,
            "环境静音、10 句固定短句和自由发挥录音都已检测到。".to_owned(),
        );
    } else {
        add_detail(&mut details, "当前训练录音并不完整。".to_owned());
        add_prefixed(&mut details, "缺少：", &detected.missing_paths);
    }
    add_prefixed(&mut details, "杂项：", &detected.unexpected_entries);
    add_prefixed(&mut details, "不可读取：", &detected.invalid_entries);
    assert(text::texts(details@) =~= recording_details(*detected, prompt_count as nat));
    details
}

/// Whether a stored profile was made of exactly these recordings.
fn matches_profile(profile: &SpeakerProfile, detected: &DetectedTrainingRecordings) -> (r: bool)
    ensures
        r == profile_matches(*profile, *detected),
{
    let sources = scan::source_recordings_from_manifest(&detected.manifest);
    proof {
        let paths = scan::clip_paths(detected.manifest.clips());
        let left = sources@.map_values(|p: String| path::path_key(p@));
        let right = paths.map_values(|p: Seq<char>| path::path_key(p));
        assert forall|i: int| 0 <= i < sources@.len() implies #[trigger] left[i] == right[i] by {
            assert(text::texts(sources@)[i] == sources@[i]@);
        }
        assert(left =~= right);
    }
    path::same_paths(&profile.source_recordings, &sources) && detected.is_complete()
        && detected.unexpected_entries.len() == 0 && detected.invalid_entries.len() == 0
}

/// Says what is to be asked about earlier recordings; nothing where none were
/// found.
pub fn inspect_startup_recording_prompt(
    detected: Option<DetectedTrainingRecordings>,
    prompt_count: usize,
    lookup: &ProfileLookup,
) -> (r: Option<StartupRecordingPrompt>)
    requires
        prompt_count + 2 <= usize::MAX,
    ensures
        match detected {
            Some(found) => r matches Some(prompt) && is_prompt_for(
                prompt,
                found,
                prompt_count as nat,
                *lookup,
            ),
            None => r is None,
        },
{
    let detected = match detected {
        Some(found) => found,
        None => {
            return None;
        },
    };
    let mut details = describe_recordings(&detected, prompt_count);
    let ghost before = text::texts(details@);
    let matching = match lookup {
        ProfileLookup::Missing => {
            add_detail(
                &mut details,
                "当前默认 speaker_profile.json 不存在，无法完成一一对应校验。".to_owned(),
            );
            false
        },
        ProfileLookup::Loaded { profile } => {
            let matching = matches_profile(profile, &detected);
            if !matching {
                add_detail(
                    &mut details,
                    "当前默认 speaker_profile.json 与录音文件没有一一对应。".to_owned(),
                );
            }
            matching
        },
        ProfileLookup::Failed { error } => {
            add_detail(
                &mut details,
                text::joined(
                    "当前默认 speaker_profile.json 读取失败，无法完成一一对应校验：",
                    error.as_str(),
                ),
            );
            false
        },
    };
    assert(text::texts(details@) =~= before + profile_details(detected, *lookup));
    if matching {
        Some(
            StartupRecordingPrompt {
                severity: StartupRecordingPromptSeverity::Info,
                title: "检测到之前保存的录音".to_owned(),
                summary: "当前录音文件齐全，并且与 `profiles/default/speaker_profile.json` 一一对应。".to_owned(),
                details,
                detected_recordings: detected,
            },
        )
    } else {
        Some(
            StartupRecordingPrompt {
                severity: StartupRecordingPromptSeverity::Warning,
                title: "检测到旧训练录音，但目录状态需要注意".to_owned(),
                summary: "当前录音文件不完整、存在杂项，或与默认 profile 不一一对应。你仍可选择加载文件或全部覆盖重录。".to_owned(),
                details,
                detected_recordings: detected,
            },
        )
    }
}

/// A profile that names other recordings, or fewer, always draws a warning, and
/// so does a profile that is not there and a recording that is missing or does not
/// belong there; nothing else does.
pub proof fn only_matching_recordings_pass(
    prompt: StartupRecordingPrompt,
    detected: DetectedTrainingRecordings,
    prompt_count: nat,
    lookup: ProfileLookup,
)
    requires
        is_prompt_for(prompt, detected, prompt_count, lookup),
    ensures
        !is_clean(detected) ==> prompt.severity == StartupRecordingPromptSeverity::Warning,
        lookup matches ProfileLookup::Loaded { profile } ==> (path::path_key_set(
            profile.source_recordings@,
        ) != recorded_keys(detected) ==> prompt.severity
            == StartupRecordingPromptSeverity::Warning),
        !(lookup is Loaded) ==> prompt.severity == StartupRecordingPromptSeverity::Warning,
        lookup matches ProfileLookup::Loaded { profile } && path::path_key_set(
            profile.source_recordings@,
        ) == recorded_keys(detected) && is_clean(detected) ==> prompt.severity
            == StartupRecordingPromptSeverity::Info,
{
}

/// Everything that is missing, does not belong or cannot be read is named, and so is how many
/// recordings were recognized out of how many.
pub proof fn every_fault_is_named(
    prompt: StartupRecordingPrompt,
    detected: DetectedTrainingRecordings,
    prompt_count: nat,
    lookup: ProfileLookup,
)
    requires
        is_prompt_for(prompt, detected, prompt_count, lookup),
    ensures
        ({
            let said = text::texts(prompt.details@);
            &&& said[0] == "已识别有效训练录音 "@ + text::decimal(detected.manifest.clips().len())
                + "/"@ + text::decimal(prompt_count + 2) + " 个。"@
            &&& !detected.manifest.complete() ==> forall|i: int|
                0 <= i < detected.missing_paths@.len() ==> said.contains(
                    "缺少："@ + (#[trigger] detected.missing_paths@[i])@,
                )
            &&& forall|i: int|
                0 <= i < detected.unexpected_entries@.len() ==> said.contains(
                    "杂项："@ + (#[trigger] detected.unexpected_entries@[i])@,
                )
            &&& forall|i: int|
                0 <= i < detected.invalid_entries@.len() ==> said.contains(
                    "不可读取："@ + (#[trigger] detected.invalid_entries@[i])@,
                )
        }),
{
    let said = text::texts(prompt.details@);
    let counted = seq![
        "已识别有效训练录音 "@ + text::decimal(detected.manifest.clips().len()) + "/"@
            + text::decimal(prompt_count + 2) + " 个。"@,
    ];
    let missing = prefixed("缺少："@, text::texts(detected.missing_paths@));
    let state = if detected.manifest.complete() {
        seq!["环境静音、10 句固定短句和自由发挥录音都已检测到。"@]
    } else {
        seq!["当前训练录音并不完整。"@] + missing
    };
    let odd = prefixed("杂项："@, text::texts(detected.unexpected_entries@));
    let unread = prefixed("不可读取："@, text::texts(detected.invalid_entries@));
    let tail = profile_details(detected, lookup);
    assert(said == counted + state + odd + unread + tail);
    if !detected.manifest.complete() {
        assert forall|i: int| 0 <= i < detected.missing_paths@.len() implies said.contains(
            "缺少："@ + (#[trigger] detected.missing_paths@[i])@,
        ) by {
            assert(missing[i] == "缺少："@ + detected.missing_paths@[i]@);
            assert(said[2 + i] == missing[i]);
        }
    }
    assert forall|i: int| 0 <= i < detected.unexpected_entries@.len() implies said.contains(
        "杂项："@ + (#[trigger] detected.unexpected_entries@[i])@,
    ) by {
        assert(odd[i] == "杂项："@ + detected.unexpected_entries@[i]@);
        assert(said[counted.len() + state.len() + i] == odd[i]);
    }
    assert forall|i: int| 0 <= i < detected.invalid_entries@.len() implies said.contains(
        "不可读取："@ + (#[trigger] detected.invalid_entries@[i])@,
    ) by {
        assert(unread[i] == "不可读取："@ + detected.invalid_entries@[i]@);
        assert(said[counted.len() + state.len() + odd.len() + i] == unread[i]);
    }
}

/// A profile that cannot be held against the recordings, or does not match them, adds a line that
/// says so; a matching one adds none.
pub proof fn profile_trouble_is_said(detected: DetectedTrainingRecordings, lookup: ProfileLookup)
    ensures
        profile_details(detected, lookup).len() == if all_is_well(detected, lookup) {
            0nat
        } else {
            1nat
        },
{
}

/// Recordings are clean exactly where every take is there and nothing else is.
pub proof fn clean_means_all_and_nothing_else(detected: DetectedTrainingRecordings)
    ensures
        is_clean(detected) <==> detected.manifest.ambient_silence is Some
            && detected.manifest.free_speech is Some && (forall|i: int|
            0 <= i < detected.manifest.fixed_prompts@.len() ==> (
            #[trigger] detected.manifest.fixed_prompts@[i]) is Some)
            && detected.unexpected_entries@.len() == 0 && detected.invalid_entries@.len() == 0,
{
}

/// The keys that were found are those of the paths of all recordings, and no others.
pub proof fn every_recording_has_its_key(
    detected: DetectedTrainingRecordings,
    i: int,
    key: Seq<char>,
)
    requires
        0 <= i < detected.manifest.clips().len(),
    ensures
        recorded_keys(detected).contains(
            path::path_key(detected.manifest.clips()[i].relative_path@),
        ),
        recorded_keys(detected).contains(key) ==> exists|k: int|
            0 <= k < detected.manifest.clips().len() && key == path::path_key(
                (#[trigger] detected.manifest.clips()[k]).relative_path@,
            ),
{
    let clips = detected.manifest.clips();
    let keys = scan::clip_paths(clips).map_values(|p: Seq<char>| path::path_key(p));
    assert(keys[i] == path::path_key(clips[i].relative_path@));
    assert(keys.contains(keys[i]));
    if recorded_keys(detected).contains(key) {
        assert(keys.contains(key));
        let k = choose|k: int| 0 <= k < keys.len() && keys[k] == key;
        assert(key == path::path_key(clips[k].relative_path@));
    }
}

} // verus!
