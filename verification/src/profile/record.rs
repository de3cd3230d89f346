//! The enrollment script, the takes it asks for and the recordings made of them.

use crate::util::float32::Float32;
use crate::util::text;
use vstd::prelude::*;

verus! {

/// How many fixed prompts an enrollment script holds.
pub const REQUIRED_PROMPT_COUNT: usize = 10;

/// How long the ambient take lasts.
pub const AMBIENT_SILENCE_SECONDS: u32 = 5;

/// How long the free-speech take lasts.
pub const FREE_SPEECH_SECONDS: u32 = 30;

/// The bundled zh-CN prompts, one to a line; `#` starts a remark.
pub const BUNDLED_PROMPTS_ZH_CN: &'static str = "# 固定短句，每行一句，共十句。
大家好，欢迎来到我的直播间。
今天的天气很不错，适合出去走一走。
请把麦克风放在离嘴巴一拳远的地方。
我们先来测试一下声音是否清楚。
这个周末我打算去图书馆看书。
桌子上放着一杯刚泡好的绿茶。
如果听不清楚，可以在弹幕里告诉我。
他每天早上六点半准时起床跑步。
这首歌的节奏很快，听起来特别有精神。
感谢大家的陪伴，我们明天再见。
";

/// The texts a speaker reads out, in order.
#[derive(Debug, Clone, PartialEq, Eq)]
pub struct EnrollmentScript {
    pub locale: &'static str,
    pub prompts: Vec<String>,
}

/// Why an enrollment script was turned down.
#[derive(Debug, Clone, Copy, PartialEq, Eq)]
pub enum ScriptError {
    /// The script does not hold the required number of prompts.
    PromptCount { found: usize },
}

/// Whether a trimmed line is a prompt: it says something and is no remark.
pub open spec fn is_prompt(line: Seq<char>) -> bool {
    line.len() > 0 && line[0] != '#'
}

/// The prompts among `lines`.
pub open spec fn prompts_among(lines: Seq<Seq<char>>) -> Seq<Seq<char>>
    decreases lines.len(),
{
    if lines.len() == 0 {
        seq![]
    } else {
        let line = text::trimmed(lines.first());
        let rest = prompts_among(lines.drop_first());
        if is_prompt(line) {
            seq![line] + rest
        } else {
            rest
        }
    }
}

/// The prompts that a script text holds: its lines, trimmed, without the empty
/// ones and the remarks.
pub open spec fn prompts_in(script: Seq<char>) -> Seq<Seq<char>> {
    prompts_among(text::lines_from(script, 0))
}

/// Reads the prompts of a script text.
pub fn parse_prompts(script: &str) -> (r: Vec<String>)
    ensures
        text::texts(r@) == prompts_in(script@),
{
    let chars = text::chars_of(script);
    let mut prompts: Vec<String> = Vec::new();
    let mut from: usize = 0;
    assert(text::texts(prompts@) =~= seq![]);
    while from < chars.len()
        invariant
            from <= chars.len(),
            chars@ == script@,
            prompts_in(script@) =~= text::texts(prompts@) + prompts_among(
                text::lines_from(script@, from as int),
            ),
        decreases chars.len() - from,
    {
        let end = text::find_line_end(&chars, from);
        let mut stop: usize = end;
        if end < chars.len() && end > from && chars[end - 1] == '\r' {
            stop = end - 1;
        }
        let line = text::trimmed_between(&chars, from, stop);
        let ghost before = text::texts(prompts@);
        let ghost lines = text::lines_from(script@, from as int);
        let ghost next: int = if end < chars.len() { end + 1 } else { end as int };
        proof {
            let whole = script@.subrange(from as int, end as int);
            if end < chars.len() {
                assert(text::without_return(whole) =~= script@.subrange(
                    from as int,
                    stop as int,
                ));
            }
            assert(lines.first() =~= script@.subrange(from as int, stop as int));
            assert(lines.drop_first() =~= text::lines_from(script@, next));
        }
        let is_remark = !line.as_str().is_empty() && line.as_str().get_char(0) == '#';
        if !line.as_str().is_empty() && !is_remark {
            let ghost item = line@;
            prompts.push(line);
            assert(text::texts(prompts@) =~= before.push(item));
        }
        if end < chars.len() {
            from = end + 1;
        } else {
            from = end;
        }
    }
    prompts
}

impl EnrollmentScript {
    /// Makes a script of the prompts in `script`, which must be exactly as many
    /// as an enrollment needs.
    pub fn from_text(locale: &'static str, script: &str) -> (r: Result<Self, ScriptError>)
        ensures
            r is Ok <==> prompts_in(script@).len() == REQUIRED_PROMPT_COUNT,
            r matches Ok(made) ==> made.locale@ == locale@ && text::texts(
                made.prompts@,
            ) == prompts_in(script@),
            r matches Err(error) ==> error == (ScriptError::PromptCount {
                found: prompts_in(script@).len() as usize,
            }),
    {
        let prompts = parse_prompts(script);
        assert(text::texts(prompts@).len() == prompts@.len());
        if prompts.len() == REQUIRED_PROMPT_COUNT {
            Ok(EnrollmentScript { locale, prompts })
        } else {
            Err(ScriptError::PromptCount { found: prompts.len() })
        }
    }

    /// The script that comes with the program.
    pub fn load_bundled_zh_cn() -> (r: Result<Self, ScriptError>)
        ensures
            r matches Ok(script) && script.locale@ == "zh-CN"@ && text::texts(script.prompts@)
                == prompts_in(BUNDLED_PROMPTS_ZH_CN@) && script.prompts@.len()
                == REQUIRED_PROMPT_COUNT,
    {
        proof {
            bundled_script_is_complete();
        }
        let script = EnrollmentScript::from_text("zh-CN", BUNDLED_PROMPTS_ZH_CN);
        assert(script matches Ok(made) ==> text::texts(made.prompts@).len()
            == made.prompts@.len());
        script
    }
}

// ---------------------------------------------------------------------------
// Takes
// ---------------------------------------------------------------------------
/// One of the takes that an enrollment is made of.
#[derive(Debug, Clone, Copy, PartialEq, Eq, Structural)]
pub enum RecordingTakeKind {
    AmbientSilence,
    FixedPrompt { index: usize },
    FreeSpeech,
}

impl RecordingTakeKind {
    /// Whether the take has a number that can be written down: prompts count
    /// from one.
    pub open spec fn is_numbered(self) -> bool {
        self matches RecordingTakeKind::FixedPrompt { index } ==> index < usize::MAX
    }

    /// Whether an enrollment with `prompt_count` prompts asks for this take.
    pub open spec fn is_expected(self, prompt_count: nat) -> bool {
        self matches RecordingTakeKind::FixedPrompt { index } ==> index < prompt_count
    }

    pub open spec fn spec_label(self) -> Seq<char> {
        match self {
            RecordingTakeKind::AmbientSilence => "环境静音"@,
            RecordingTakeKind::FixedPrompt { index } => "固定短句 "@ + text::decimal_two(
                (index + 1) as nat,
            ),
            RecordingTakeKind::FreeSpeech => "自由发挥"@,
        }
    }

    pub open spec fn spec_short_label(self) -> Seq<char> {
        match self {
            RecordingTakeKind::AmbientSilence => "环境静音"@,
            RecordingTakeKind::FixedPrompt { .. } => "固定短句"@,
            RecordingTakeKind::FreeSpeech => "自由发挥"@,
        }
    }

    pub open spec fn spec_file_name(self) -> Seq<char> {
        match self {
            RecordingTakeKind::AmbientSilence => "ambient_silence.wav"@,
            RecordingTakeKind::FixedPrompt { index } => "fixed_prompt_"@ + text::decimal_two(
                (index + 1) as nat,
            ) + ".wav"@,
            RecordingTakeKind::FreeSpeech => "free_speech.wav"@,
        }
    }

    /// What the take is called.
    pub fn label(self) -> (r: String)
        requires
            self.is_numbered(),
        ensures
            r@ == self.spec_label(),
    {
        match self {
            RecordingTakeKind::AmbientSilence => "环境静音".to_owned(),
            RecordingTakeKind::FixedPrompt { index } => {
                let number = text::decimal_two_text(index as u64 + 1);
                text::joined("固定短句 ", number.as_str())
            },
            RecordingTakeKind::FreeSpeech => "自由发挥".to_owned(),
        }
    }

    /// What the take is called, without the number of the prompt.
    pub fn short_label(self) -> (r: &'static str)
        ensures
            r@ == self.spec_short_label(),
    {
        match self {
            RecordingTakeKind::AmbientSilence => "环境静音",
            RecordingTakeKind::FixedPrompt { .. } => "固定短句",
            RecordingTakeKind::FreeSpeech => "自由发挥",
        }
    }

    /// The file that holds the take.
    pub fn file_name(self) -> (r: String)
        requires
            self.is_numbered(),
        ensures
            r@ == self.spec_file_name(),
    {
        match self {
            RecordingTakeKind::AmbientSilence => "ambient_silence.wav".to_owned(),
            RecordingTakeKind::FixedPrompt { index } => {
                let number = text::decimal_two_text(index as u64 + 1);
                text::joined3("fixed_prompt_", number.as_str(), ".wav")
            },
            RecordingTakeKind::FreeSpeech => "free_speech.wav".to_owned(),
        }
    }
}

/// No two takes share a file: the file name tells which take it holds.
pub proof fn file_names_are_distinct(a: RecordingTakeKind, b: RecordingTakeKind)
    requires
        a.spec_file_name() == b.spec_file_name(),
    ensures
        a == b,
{
    reveal_strlit("ambient_silence.wav");
    reveal_strlit("free_speech.wav");
    reveal_strlit("fixed_prompt_");
    reveal_strlit(".wav");
    let x = a.spec_file_name();
    let y = b.spec_file_name();
    assert(x[0] == y[0] && x[1] == y[1]);
    if a is FixedPrompt && b is FixedPrompt {
        let i = (a->index + 1) as nat;
        let j = (b->index + 1) as nat;
        assert(x.subrange(13, x.len() - 4) =~= text::decimal_two(i));
        assert(y.subrange(13, y.len() - 4) =~= text::decimal_two(j));
        text::lemma_decimal_two_injective(i, j);
    }
}

// ---------------------------------------------------------------------------
// Recordings
// ---------------------------------------------------------------------------
/// A take that was recorded and stands in a file.
#[derive(Debug)]
pub struct RecordedClip {
    pub kind: RecordingTakeKind,
    pub label: String,
    pub relative_path: String,
    pub duration_seconds: Float32,
    pub sample_rate_hz: u32,
    pub sample_count: usize,
    pub peak_linear: Float32,
}

impl Clone for RecordedClip {
    fn clone(&self) -> (r: Self)
        ensures
            r == *self,
    {
        RecordedClip {
            kind: self.kind,
            label: self.label.clone(),
            relative_path: self.relative_path.clone(),
            duration_seconds: self.duration_seconds,
            sample_rate_hz: self.sample_rate_hz,
            sample_count: self.sample_count,
            peak_linear: self.peak_linear,
        }
    }
}

/// How a recording that is being made is doing.
#[derive(Debug, Clone, Copy, PartialEq, Eq, Structural)]
pub struct RecordingMetricsSnapshot {
    pub input_level_linear: Float32,
    pub dropped_input_frames: u64,
}

impl Default for RecordingMetricsSnapshot {
    fn default() -> (r: Self)
        ensures
            r.input_level_linear.bits == 0,
            r.dropped_input_frames == 0,
    {
        RecordingMetricsSnapshot {
            input_level_linear: Float32 { bits: 0 },
            dropped_input_frames: 0,
        }
    }
}

/// Zero or one clip as a sequence.
pub open spec fn at_most_one(slot: Option<RecordedClip>) -> Seq<RecordedClip> {
    match slot {
        Some(clip) => seq![clip],
        None => seq![],
    }
}

/// The clips that are there, in the order of their slots.
pub open spec fn present(slots: Seq<Option<RecordedClip>>) -> Seq<RecordedClip>
    decreases slots.len(),
{
    if slots.len() == 0 {
        seq![]
    } else {
        present(slots.drop_last()) + at_most_one(slots.last())
    }
}

/// The recordings of one enrollment: a slot for every take.
#[derive(Debug, Clone)]
pub struct TrainingRecordingManifest {
    pub ambient_silence: Option<RecordedClip>,
    pub fixed_prompts: Vec<Option<RecordedClip>>,
    pub free_speech: Option<RecordedClip>,
}

impl TrainingRecordingManifest {
    /// What is recorded of a take.
    pub open spec fn slot(self, kind: RecordingTakeKind) -> Option<RecordedClip> {
        match kind {
            RecordingTakeKind::AmbientSilence => self.ambient_silence,
            RecordingTakeKind::FixedPrompt { index } => if index < self.fixed_prompts@.len() {
                self.fixed_prompts@[index as int]
            } else {
                None
            },
            RecordingTakeKind::FreeSpeech => self.free_speech,
        }
    }

    /// All that is recorded, in the order of the enrollment.
    pub open spec fn clips(self) -> Seq<RecordedClip> {
        at_most_one(self.ambient_silence) + present(self.fixed_prompts@) + at_most_one(
            self.free_speech,
        )
    }

    /// Whether every take is recorded.
    pub open spec fn complete(self) -> bool {
        &&& self.ambient_silence is Some
        &&& self.free_speech is Some
        &&& forall|i: int| 0 <= i < self.fixed_prompts@.len() ==> self.fixed_prompts@[i] is Some
    }

    /// Whether all takes together can be counted.
    pub open spec fn is_countable(self) -> bool {
        self.fixed_prompts@.len() + 2 <= usize::MAX
    }

    /// Room for the takes of an enrollment with `prompt_count` prompts, nothing
    /// of it recorded.
    pub fn new(prompt_count: usize) -> (r: Self)
        ensures
            r.ambient_silence is None,
            r.free_speech is None,
            r.fixed_prompts@ == Seq::new(prompt_count as nat, |i: int| None::<RecordedClip>),
    {
        let mut fixed_prompts: Vec<Option<RecordedClip>> = Vec::new();
        let mut i: usize = 0;
        while i < prompt_count
            invariant
                i <= prompt_count,
                fixed_prompts@ == Seq::new(i as nat, |k: int| None::<RecordedClip>),
            decreases prompt_count - i,
        {
            fixed_prompts.push(None);
            i = i + 1;
            assert(fixed_prompts@ =~= Seq::new(i as nat, |k: int| None::<RecordedClip>));
        }
        TrainingRecordingManifest { ambient_silence: None, fixed_prompts, free_speech: None }
    }

    /// Puts a clip in its slot; a prompt that the enrollment does not have is
    /// passed over.
    pub fn register(&mut self, clip: RecordedClip)
        ensures
            final(self).fixed_prompts@.len() == old(self).fixed_prompts@.len(),
            clip.kind.is_expected(old(self).fixed_prompts@.len()) ==> final(self).slot(clip.kind)
                == Some(clip),
            forall|kind: RecordingTakeKind|
                kind != clip.kind || !kind.is_expected(old(self).fixed_prompts@.len())
                    ==> #[trigger] final(self).slot(kind) == old(self).slot(kind),
    {
        match clip.kind {
            RecordingTakeKind::AmbientSilence => {
                self.ambient_silence = Some(clip);
            },
            RecordingTakeKind::FixedPrompt { index } => {
                if index < self.fixed_prompts.len() {
                    self.fixed_prompts.set(index, Some(clip));
                }
            },
            RecordingTakeKind::FreeSpeech => {
                self.free_speech = Some(clip);
            },
        }
    }

    /// How many prompts are recorded.
    pub fn recorded_prompt_count(&self) -> (r: usize)
        ensures
            r == present(self.fixed_prompts@).len(),
    {
        let mut count: usize = 0;
        let mut i: usize = 0;
        while i < self.fixed_prompts.len()
            invariant
                i <= self.fixed_prompts.len(),
                count <= i,
                count == present(self.fixed_prompts@.take(i as int)).len(),
            decreases self.fixed_prompts.len() - i,
        {
            assert(self.fixed_prompts@.take(i + 1).drop_last() =~= self.fixed_prompts@.take(
                i as int,
            ));
            if self.fixed_prompts[i].is_some() {
                count = count + 1;
            }
            i = i + 1;
        }
        assert(self.fixed_prompts@.take(i as int) =~= self.fixed_prompts@);
        count
    }

    /// How many takes are recorded.
    pub fn recorded_clip_count(&self) -> (r: usize)
        requires
            self.is_countable(),
        ensures
            r == self.clips().len(),
    {
        proof {
            lemma_present_bound(self.fixed_prompts@);
        }
        let mut count = self.recorded_prompt_count();
        if self.ambient_silence.is_some() {
            count = count + 1;
        }
        if self.free_speech.is_some() {
            count = count + 1;
        }
        count
    }

    /// Whether every take is recorded.
    pub fn is_complete(&self) -> (r: bool)
        ensures
            r == self.complete(),
    {
        proof {
            lemma_present_bound(self.fixed_prompts@);
        }
        self.ambient_silence.is_some() && self.free_speech.is_some()
            && self.recorded_prompt_count() == self.fixed_prompts.len()
    }

    /// What is recorded of a take.
    pub fn get(&self, kind: RecordingTakeKind) -> (r: Option<&RecordedClip>)
        ensures
            r == match self.slot(kind) {
                Some(clip) => Some(&clip),
                None => None,
            },
    {
        match kind {
            RecordingTakeKind::AmbientSilence => self.ambient_silence.as_ref(),
            RecordingTakeKind::FixedPrompt { index } => {
                if index < self.fixed_prompts.len() {
                    self.fixed_prompts[index].as_ref()
                } else {
                    None
                }
            },
            RecordingTakeKind::FreeSpeech => self.free_speech.as_ref(),
        }
    }

    /// Empties every slot and hands out what was in them.
    pub fn clear_all(&mut self) -> (r: Vec<RecordedClip>)
        ensures
            r@ == old(self).clips(),
            final(self).ambient_silence is None,
            final(self).free_speech is None,
            final(self).fixed_prompts@ == Seq::new(
                old(self).fixed_prompts@.len(),
                |i: int| None::<RecordedClip>,
            ),
    {
        let ghost before = *self;
        let mut removed: Vec<RecordedClip> = Vec::new();
        if let Some(clip) = self.ambient_silence.take() {
            removed.push(clip);
        }
        assert(removed@ =~= at_most_one(before.ambient_silence));
        self.take_prompts_from(0, &mut removed);
        assert(before.fixed_prompts@.skip(0) =~= before.fixed_prompts@);
        if let Some(clip) = self.free_speech.take() {
            removed.push(clip);
        }
        assert(removed@ =~= before.clips());
        assert(self.fixed_prompts@ =~= Seq::new(
            before.fixed_prompts@.len(),
            |i: int| None::<RecordedClip>,
        ));
        removed
    }

    /// Empties the slots of the prompts from `prompt_index` on and of the free
    /// speech, and hands out what was in them.
    pub fn clear_from_prompt(&mut self, prompt_index: usize) -> (r: Vec<RecordedClip>)
        ensures
            r@ == present(slots_from(old(self).fixed_prompts@, prompt_index as int)) + at_most_one(
                old(self).free_speech,
            ),
            final(self).ambient_silence == old(self).ambient_silence,
            final(self).free_speech is None,
            final(self).fixed_prompts@ == Seq::new(
                old(self).fixed_prompts@.len(),
                |i: int|
                    if i < prompt_index {
                        old(self).fixed_prompts@[i]
                    } else {
                        None
                    },
            ),
    {
        let ghost before = *self;
        let mut removed: Vec<RecordedClip> = Vec::new();
        if prompt_index < self.fixed_prompts.len() {
            self.take_prompts_from(prompt_index, &mut removed);
        }
        assert(removed@ =~= present(slots_from(before.fixed_prompts@, prompt_index as int)));
        if let Some(clip) = self.free_speech.take() {
            removed.push(clip);
        }
        assert(removed@ =~= present(slots_from(before.fixed_prompts@, prompt_index as int))
            + at_most_one(before.free_speech));
        removed
    }

    /// Empties the slots of the prompts from `from` on into `removed`.
    fn take_prompts_from(&mut self, from: usize, removed: &mut Vec<RecordedClip>)
        requires
            from <= old(self).fixed_prompts@.len(),
        ensures
            final(removed)@ == old(removed)@ + present(old(self).fixed_prompts@.skip(from as int)),
            final(self).ambient_silence == old(self).ambient_silence,
            final(self).free_speech == old(self).free_speech,
            final(self).fixed_prompts@.len() == old(self).fixed_prompts@.len(),
            forall|i: int|
                0 <= i < from ==> final(self).fixed_prompts@[i] == old(self).fixed_prompts@[i],
            forall|i: int|
                from <= i < old(self).fixed_prompts@.len() ==> final(self).fixed_prompts@[i]
                    == None::<RecordedClip>,
    {
        let ghost slots = self.fixed_prompts@;
        let ghost start = removed@;
        let mut i: usize = from;
        assert(slots.skip(from as int).take(0) =~= seq![]);
        assert(removed@ =~= start + present(slots.skip(from as int).take(0)));
        while i < self.fixed_prompts.len()
            invariant
                from <= i <= slots.len(),
                self.fixed_prompts@.len() == slots.len(),
                self.ambient_silence == old(self).ambient_silence,
                self.free_speech == old(self).free_speech,
                slots == old(self).fixed_prompts@,
                forall|k: int| 0 <= k < from ==> self.fixed_prompts@[k] == slots[k],
                forall|k: int| from <= k < i ==> self.fixed_prompts@[k] == None::<RecordedClip>,
                forall|k: int| i <= k < slots.len() ==> self.fixed_prompts@[k] == slots[k],
                removed@ == start + present(slots.skip(from as int).take(i - from)),
            decreases slots.len() - i,
        {
            let ghost tail = slots.skip(from as int);
            assert(tail.take(i + 1 - from).drop_last() =~= tail.take(i - from));
            assert(tail.take(i + 1 - from).last() == slots[i as int]);
            if let Some(clip) = self.fixed_prompts[i].take() {
                removed.push(clip);
            }
            assert(removed@ =~= start + present(tail.take(i + 1 - from)));
            i = i + 1;
        }
        assert(slots.skip(from as int).take(i - from) =~= slots.skip(from as int));
    }
}

/// The slots from position `from` on.
pub open spec fn slots_from(slots: Seq<Option<RecordedClip>>, from: int) -> Seq<
    Option<RecordedClip>,
> {
    if from <= slots.len() {
        slots.skip(from)
    } else {
        seq![]
    }
}

/// Where the clip of a filled slot stands among all that are recorded.
pub proof fn lemma_present_holds(slots: Seq<Option<RecordedClip>>, i: int) -> (k: int)
    requires
        0 <= i < slots.len(),
        slots[i] is Some,
    ensures
        0 <= k < present(slots).len(),
        present(slots)[k] == slots[i]->0,
    decreases slots.len(),
{
    if i == slots.len() - 1 {
        present(slots).len() - 1
    } else {
        assert(slots.drop_last()[i] == slots[i]);
        lemma_present_holds(slots.drop_last(), i)
    }
}

/// No more clips than slots, and as many only where every slot is filled.
pub proof fn lemma_present_bound(slots: Seq<Option<RecordedClip>>)
    ensures
        present(slots).len() <= slots.len(),
        present(slots).len() == slots.len() <==> forall|i: int|
            0 <= i < slots.len() ==> slots[i] is Some,
    decreases slots.len(),
{
    if slots.len() > 0 {
        let head = slots.drop_last();
        lemma_present_bound(head);
        if present(slots).len() == slots.len() {
            assert forall|i: int| 0 <= i < slots.len() implies slots[i] is Some by {
                if i < head.len() {
                    assert(slots[i] == head[i]);
                }
            }
        }
        if forall|i: int| 0 <= i < slots.len() ==> slots[i] is Some {
            assert forall|i: int| 0 <= i < head.len() implies head[i] is Some by {
                assert(slots[i] is Some);
            }
        }
    }
}

/// As many takes are recorded as the enrollment asks for exactly where every one of
/// them is: its prompts and two more.
pub proof fn complete_enrollment_has_every_clip(manifest: TrainingRecordingManifest)
    ensures
        manifest.clips().len() <= manifest.fixed_prompts@.len() + 2,
        manifest.complete() <==> manifest.clips().len() == manifest.fixed_prompts@.len() + 2,
{
    lemma_present_bound(manifest.fixed_prompts@);
}

/// An enrollment all of whose slots are empty has no clips.
pub proof fn empty_enrollment_has_no_clips(manifest: TrainingRecordingManifest)
    requires
        manifest.ambient_silence is None,
        manifest.free_speech is None,
        manifest.fixed_prompts@ == Seq::new(
            manifest.fixed_prompts@.len(),
            |i: int| None::<RecordedClip>,
        ),
    ensures
        manifest.clips().len() == 0,
{
    lemma_present_empty(manifest.fixed_prompts@);
}

/// Slots without clips.
pub proof fn lemma_present_empty(slots: Seq<Option<RecordedClip>>)
    requires
        forall|k: int| 0 <= k < slots.len() ==> slots[k] is None,
    ensures
        present(slots).len() == 0,
    decreases slots.len(),
{
    if slots.len() > 0 {
        assert forall|k: int| 0 <= k < slots.drop_last().len() implies slots.drop_last()[k] is None by {
            assert(slots[k] is None);
        }
        lemma_present_empty(slots.drop_last());
    }
}

/// A line that neither begins nor ends with white space is a prompt unless it is a
/// remark.
proof fn lemma_prompt_line(script: Seq<char>, from: int, end: int)
    requires
        0 <= from < end < script.len(),
        text::line_end(script, from) == end,
        !text::white_space(script[from]),
        !text::white_space(script[end - 1]),
    ensures
        prompts_among(text::lines_from(script, from)).len() == prompts_among(
            text::lines_from(script, end + 1),
        ).len() + if script[from] == '#' {
            0nat
        } else {
            1nat
        },
{
    let lines = text::lines_from(script, from);
    let line = script.subrange(from, end);
    assert(lines.first() == line);
    assert(lines.drop_first() =~= text::lines_from(script, end + 1));
    assert(text::trimmed(line) == line);
}

/// The script that comes with the program holds as many prompts as an enrollment
/// needs.
pub proof fn bundled_script_is_complete()
    ensures
        prompts_in(BUNDLED_PROMPTS_ZH_CN@).len() == REQUIRED_PROMPT_COUNT,
{
    let t = BUNDLED_PROMPTS_ZH_CN@;
    reveal_strlit("# 固定短句，每行一句，共十句。
大家好，欢迎来到我的直播间。
今天的天气很不错，适合出去走一走。
请把麦克风放在离嘴巴一拳远的地方。
我们先来测试一下声音是否清楚。
这个周末我打算去图书馆看书。
桌子上放着一杯刚泡好的绿茶。
如果听不清楚，可以在弹幕里告诉我。
他每天早上六点半准时起床跑步。
这首歌的节奏很快，听起来特别有精神。
感谢大家的陪伴，我们明天再见。
");
    assert(text::line_end(t, 0) == 16) by {
        reveal_with_fuel(text::line_end, 17);
    }
    lemma_prompt_line(t, 0, 16);
    assert(text::line_end(t, 17) == 31) by {
        reveal_with_fuel(text::line_end, 15);
    }
    lemma_prompt_line(t, 17, 31);
    assert(text::line_end(t, 32) == 49) by {
        reveal_with_fuel(text::line_end, 18);
    }
    lemma_prompt_line(t, 32, 49);
    assert(text::line_end(t, 50) == 67) by {
        reveal_with_fuel(text::line_end, 18);
    }
    lemma_prompt_line(t, 50, 67);
    assert(text::line_end(t, 68) == 83) by {
        reveal_with_fuel(text::line_end, 16);
    }
    lemma_prompt_line(t, 68, 83);
    assert(text::line_end(t, 84) == 98) by {
        reveal_with_fuel(text::line_end, 15);
    }
    lemma_prompt_line(t, 84, 98);
    assert(text::line_end(t, 99) == 113) by {
        reveal_with_fuel(text::line_end, 15);
    }
    lemma_prompt_line(t, 99, 113);
    assert(text::line_end(t, 114) == 131) by {
        reveal_with_fuel(text::line_end, 18);
    }
    lemma_prompt_line(t, 114, 131);
    assert(text::line_end(t, 132) == 147) by {
        reveal_with_fuel(text::line_end, 16);
    }
    lemma_prompt_line(t, 132, 147);
    assert(text::line_end(t, 148) == 166) by {
        reveal_with_fuel(text::line_end, 19);
    }
    lemma_prompt_line(t, 148, 166);
    assert(text::line_end(t, 167) == 182) by {
        reveal_with_fuel(text::line_end, 16);
    }
    lemma_prompt_line(t, 167, 182);
}

/// Every prompt of a script is trimmed, says something and is no remark.
pub proof fn prompts_are_clean(script: Seq<char>, i: int)
    requires
        0 <= i < prompts_in(script).len(),
    ensures
        is_prompt(prompts_in(script)[i]),
        text::trimmed(prompts_in(script)[i]) == prompts_in(script)[i],
{
    lemma_prompts_are_clean(text::lines_from(script, 0), i);
}

proof fn lemma_prompts_are_clean(lines: Seq<Seq<char>>, i: int)
    requires
        0 <= i < prompts_among(lines).len(),
    ensures
        is_prompt(prompts_among(lines)[i]),
        text::trimmed(prompts_among(lines)[i]) == prompts_among(lines)[i],
    decreases lines.len(),
{
    let line = text::trimmed(lines.first());
    text::lemma_trimmed_twice(lines.first());
    let rest = prompts_among(lines.drop_first());
    if is_prompt(line) {
        if i > 0 {
            lemma_prompts_are_clean(lines.drop_first(), i - 1);
            assert(prompts_among(lines)[i] == rest[i - 1]);
        }
    } else {
        lemma_prompts_are_clean(lines.drop_first(), i);
    }
}

/// What is recorded keeps the order of the slots and leaves out nothing but empty slots,
/// however the slots are cut in two.
pub proof fn recorded_prompts_follow_slots(
    left: Seq<Option<RecordedClip>>,
    right: Seq<Option<RecordedClip>>,
    slot: Option<RecordedClip>,
)
    ensures
        present(left + right) == present(left) + present(right),
        present(seq![slot]) == match slot {
            Some(clip) => seq![clip],
            None => Seq::<RecordedClip>::empty(),
        },
    decreases right.len(),
{
    reveal_with_fuel(present, 2);
    let one = seq![slot];
    assert(one.drop_last() =~= Seq::<Option<RecordedClip>>::empty());
    assert(present(one) =~= at_most_one(slot));
    if right.len() == 0 {
        assert(left + right =~= left);
        assert(present(left) + present(right) =~= present(left));
    } else {
        recorded_prompts_follow_slots(left, right.drop_last(), slot);
        assert((left + right).drop_last() =~= left + right.drop_last());
        assert((left + right).last() == right.last());
        assert(present(left + right) =~= present(left) + present(right));
    }
}

/// Every take that is recorded is among the clips, and nothing else is.
pub proof fn clips_are_the_filled_slots(manifest: TrainingRecordingManifest, clip: RecordedClip)
    requires
        manifest.fixed_prompts@.len() <= usize::MAX,
    ensures
        manifest.clips().contains(clip) <==> exists|kind: RecordingTakeKind|
            #[trigger] manifest.slot(kind) == Some(clip),
        manifest.ambient_silence matches Some(ambient) ==> manifest.clips()[0] == ambient,
        manifest.free_speech matches Some(free) ==> manifest.clips().last() == free,
{
    let slots = manifest.fixed_prompts@;
    let all = manifest.clips();
    let head = at_most_one(manifest.ambient_silence);
    let middle = present(slots);
    if exists|kind: RecordingTakeKind| #[trigger] manifest.slot(kind) == Some(clip) {
        let kind = choose|kind: RecordingTakeKind| #[trigger] manifest.slot(kind) == Some(clip);
        match kind {
            RecordingTakeKind::AmbientSilence => {
                assert(all[0] == clip);
            },
            RecordingTakeKind::FixedPrompt { index } => {
                let k = lemma_present_holds(slots, index as int);
                assert(all[head.len() + k] == clip);
            },
            RecordingTakeKind::FreeSpeech => {
                assert(all[(head.len() + middle.len()) as int] == clip);
            },
        }
    }
    if all.contains(clip) {
        let k = choose|k: int| 0 <= k < all.len() && all[k] == clip;
        if k < head.len() {
            assert(manifest.slot(RecordingTakeKind::AmbientSilence) == Some(clip));
        } else if k < head.len() + middle.len() {
            assert(middle[k - head.len()] == clip);
            let i = lemma_present_comes_from(slots, k - head.len());
            assert(manifest.slot(RecordingTakeKind::FixedPrompt { index: i as usize }) == Some(clip));
        } else {
            assert(manifest.slot(RecordingTakeKind::FreeSpeech) == Some(clip));
        }
    }
}

proof fn lemma_present_comes_from(slots: Seq<Option<RecordedClip>>, k: int) -> (i: int)
    requires
        0 <= k < present(slots).len(),
    ensures
        0 <= i < slots.len(),
        slots[i] == Some(present(slots)[k]),
    decreases slots.len(),
{
    let rest = slots.drop_last();
    if k < present(rest).len() {
        let i = lemma_present_comes_from(rest, k);
        assert(slots[i] == rest[i]);
        i
    } else {
        slots.len() - 1
    }
}

/// The prompts of a script are those of its lines, in order: a line gives its trimmed text,
/// unless nothing is left of it or it begins with `#`.
pub proof fn prompts_follow_lines(
    left: Seq<Seq<char>>,
    right: Seq<Seq<char>>,
    line: Seq<char>,
)
    ensures
        prompts_among(left + right) == prompts_among(left) + prompts_among(right),
        prompts_among(seq![line]) == if text::trimmed(line).len() == 0 || text::trimmed(line)[0]
            == '#' {
            Seq::<Seq<char>>::empty()
        } else {
            seq![text::trimmed(line)]
        },
    decreases left.len(),
{
    reveal_with_fuel(prompts_among, 2);
    let one = seq![line];
    assert(one.drop_first() =~= Seq::<Seq<char>>::empty());
    assert(one.first() == line);
    if left.len() == 0 {
        assert(left + right =~= right);
        assert(prompts_among(left) + prompts_among(right) =~= prompts_among(right));
    } else {
        prompts_follow_lines(left.drop_first(), right, line);
        assert((left + right).drop_first() =~= left.drop_first() + right);
        assert((left + right).first() == left.first());
        assert(prompts_among(left + right) =~= prompts_among(left) + prompts_among(right));
    }
}

/// Retrying from a prompt gives up that prompt, all after it and the free speech, and the
/// clips that stay and those that go are together all there were.
pub proof fn retry_splits_the_recordings(manifest: TrainingRecordingManifest, index: int)
    requires
        0 <= index <= manifest.fixed_prompts@.len(),
    ensures
        at_most_one(manifest.ambient_silence) + present(manifest.fixed_prompts@.take(index))
            + (present(slots_from(manifest.fixed_prompts@, index)) + at_most_one(
            manifest.free_speech,
        )) == manifest.clips(),
{
    let slots = manifest.fixed_prompts@;
    assert(slots.take(index) + slots.skip(index) =~= slots);
    recorded_prompts_follow_slots(slots.take(index), slots.skip(index), None);
    assert(at_most_one(manifest.ambient_silence) + present(slots.take(index)) + (present(
        slots_from(slots, index),
    ) + at_most_one(manifest.free_speech)) =~= manifest.clips());
}

} // verus!
