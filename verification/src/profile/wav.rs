//! Reading WAV files: what is accepted, and what is said of the rest.
//!
//! Decoding is left to `hound`. Integer samples are handed on together with the
//! full scale they are to be divided by; floating-point samples are left to the
//! caller.

use crate::util::text;
use vstd::arithmetic::power2::*;
use vstd::prelude::*;

verus! {

/// The properties that a WAV file states of its audio.
#[derive(Debug, Clone, Copy, PartialEq, Eq, Structural)]
pub struct WavHeader {
    pub channels: u16,
    pub sample_rate_hz: u32,
    pub bits_per_sample: u16,
    /// Whether the samples are floating-point numbers rather than integers.
    pub is_float: bool,
}

/// What `hound` makes of the header of a file: channels, sample rate, bits per
/// sample and whether samples are floating point; or its complaint.
pub uninterp spec fn wav_header(bytes: Seq<u8>) -> Result<(u16, u32, u16, bool), Seq<char>>;

/// The integer samples that `hound` decodes from a file, channels interleaved;
/// or its complaint about the first one that fails.
pub uninterp spec fn wav_int_samples(bytes: Seq<u8>) -> Result<Seq<i32>, Seq<char>>;

/// `hound::WavReader::new` on the bytes of a file, then `spec` of the reader. Which
/// bytes are accepted and what is read from them is known only by name.
#[verifier::external_body]
fn read_header(bytes: &[u8]) -> (r: Result<WavHeader, String>)
    ensures
        match r {
            Ok(h) => wav_header(bytes@) == Ok::<(u16, u32, u16, bool), Seq<char>>(
                (h.channels, h.sample_rate_hz, h.bits_per_sample, h.is_float),
            ),
            Err(e) => wav_header(bytes@) == Err::<(u16, u32, u16, bool), Seq<char>>(e@),
        },
{
    let spec = hound::WavReader::new(bytes).map_err(|error| error.to_string())?.spec();
    Ok(
        WavHeader {
            channels: spec.channels,
            sample_rate_hz: spec.sample_rate,
            bits_per_sample: spec.bits_per_sample,
            is_float: match spec.sample_format {
                hound::SampleFormat::Float => true,
                hound::SampleFormat::Int => false,
            },
        },
    )
}

/// `samples::<i32>` of a `hound::WavReader` on the bytes of a file, all of them
/// or the first error. What the samples are is known only by name.
#[verifier::external_body]
fn read_int_samples(bytes: &[u8]) -> (r: Result<Vec<i32>, String>)
    ensures
        match r {
            Ok(samples) => wav_int_samples(bytes@) == Ok::<Seq<i32>, Seq<char>>(samples@),
            Err(e) => wav_int_samples(bytes@) == Err::<Seq<i32>, Seq<char>>(e@),
        },
{
    let mut reader = hound::WavReader::new(bytes).map_err(|error| error.to_string())?;
    reader.samples::<i32>().collect::<Result<Vec<i32>, hound::Error>>().map_err(
        |error| error.to_string(),
    )
}

/// What a WAV file is read for.
#[derive(Debug, Clone, Copy, PartialEq, Eq, Structural)]
pub enum WavUse {
    /// Taking stock of a training recording.
    Recording,
    /// Playing a training recording back.
    Preview,
    /// Checking the quality of a training recording.
    Quality,
    /// Extracting a speaker embedding.
    Speaker,
    /// Filtering a file.
    Offline,
}

/// Why a WAV file cannot be used.
#[derive(Debug)]
pub enum WavError {
    Open { detail: String },
    Channels { channels: u16 },
    BitsPerSample { bits: u16 },
    Decode { detail: String },
}

/// The samples of a WAV file.
#[derive(Debug)]
pub enum WavSamples {
    /// Floating-point samples, still to be decoded.
    Float,
    /// Integer samples and the value that stands for full scale.
    Int { samples: Vec<i32>, full_scale: i64 },
}

/// A WAV file that can be used.
#[derive(Debug)]
pub struct DecodedWav {
    pub channels: u16,
    pub sample_rate_hz: u32,
    pub samples: WavSamples,
}

/// Whether a file with this many channels serves the purpose: a training
/// recording is mono, a file to be filtered has any channels at all.
pub open spec fn channels_fit(purpose: WavUse, channels: u16) -> bool {
    if purpose == WavUse::Offline {
        channels > 0
    } else {
        channels == 1
    }
}

/// Whether integer samples of this width can be used.
pub open spec fn bits_fit(bits: u16) -> bool {
    0 < bits <= 32
}

/// Whether `r` is the right answer for a file with header `header` and, as far
/// as they matter, integer samples `samples`.
pub open spec fn decoded_as(
    r: Result<DecodedWav, WavError>,
    purpose: WavUse,
    header: Result<(u16, u32, u16, bool), Seq<char>>,
    samples: Result<Seq<i32>, Seq<char>>,
) -> bool {
    match header {
        Err(complaint) => r matches Err(WavError::Open { detail }) && detail@ == complaint,
        Ok((channels, rate, bits, is_float)) => if !channels_fit(purpose, channels) {
            r matches Err(WavError::Channels { channels: got }) && got == channels
        } else if is_float {
            r matches Ok(wav) && wav.channels == channels && wav.sample_rate_hz == rate
                && wav.samples is Float
        } else if !bits_fit(bits) {
            r matches Err(WavError::BitsPerSample { bits: got }) && got == bits
        } else {
            match samples {
                Err(complaint) => r matches Err(WavError::Decode { detail }) && detail@
                    == complaint,
                Ok(values) => {
                    &&& r matches Ok(wav)
                    &&& wav.channels == channels
                    &&& wav.sample_rate_hz == rate
                    &&& wav.samples matches WavSamples::Int { samples: got, full_scale }
                    &&& got@ == values
                    &&& full_scale == pow2((bits - 1) as nat)
                },
            }
        },
    }
}

/// The value of full scale for signed samples of `bits` bits: 2^(bits-1).
pub fn full_scale(bits: u16) -> (r: i64)
    requires
        bits_fit(bits),
    ensures
        r == pow2((bits - 1) as nat),
{
    let mut scale: i64 = 1;
    let mut i: u16 = 1;
    proof {
        lemma2_to64();
    }
    while i < bits
        invariant
            1 <= i <= bits <= 32,
            scale == pow2((i - 1) as nat),
        decreases bits - i,
    {
        proof {
            lemma_pow2_unfold(i as nat);
            lemma2_to64();
            if i < 32 {
                lemma_pow2_strictly_increases(i as nat, 32);
            }
        }
        scale = scale * 2;
        i = i + 1;
    }
    scale
}

/// What is to be done with a file once its header is known.
#[derive(Debug)]
pub enum WavPlan {
    Refuse { error: WavError },
    /// The samples are floating point and left to the caller.
    Float,
    /// The samples are integers, to be divided by `full_scale`.
    Int { full_scale: i64 },
}

/// Decides by its header whether a file serves the purpose, and how its samples
/// are to be read.
pub fn plan_for_header(header: WavHeader, purpose: WavUse) -> (r: WavPlan)
    ensures
        match r {
            WavPlan::Refuse { error } => {
                ||| !channels_fit(purpose, header.channels) && error == (WavError::Channels {
                    channels: header.channels,
                })
                ||| channels_fit(purpose, header.channels) && !header.is_float && !bits_fit(
                    header.bits_per_sample,
                ) && error == (WavError::BitsPerSample { bits: header.bits_per_sample })
            },
            WavPlan::Float => channels_fit(purpose, header.channels) && header.is_float,
            WavPlan::Int { full_scale } => channels_fit(purpose, header.channels)
                && !header.is_float && bits_fit(header.bits_per_sample) && full_scale == pow2(
                (header.bits_per_sample - 1) as nat,
            ),
        },
{
    let fits = match purpose {
        WavUse::Offline => header.channels > 0,
        _ => header.channels == 1,
    };
    if !fits {
        return WavPlan::Refuse { error: WavError::Channels { channels: header.channels } };
    }
    if header.is_float {
        return WavPlan::Float;
    }
    if header.bits_per_sample == 0 || header.bits_per_sample > 32 {
        return WavPlan::Refuse {
            error: WavError::BitsPerSample { bits: header.bits_per_sample },
        };
    }
    WavPlan::Int { full_scale: full_scale(header.bits_per_sample) }
}

/// Reads the bytes of a WAV file for a purpose.
pub fn decode_wav(bytes: &[u8], purpose: WavUse) -> (r: Result<DecodedWav, WavError>)
    ensures
        decoded_as(r, purpose, wav_header(bytes@), wav_int_samples(bytes@)),
{
    let header = match read_header(bytes) {
        Ok(header) => header,
        Err(detail) => {
            return Err(WavError::Open { detail });
        },
    };
    match plan_for_header(header, purpose) {
        WavPlan::Refuse { error } => Err(error),
        WavPlan::Float => Ok(
            DecodedWav {
                channels: header.channels,
                sample_rate_hz: header.sample_rate_hz,
                samples: WavSamples::Float,
            },
        ),
        WavPlan::Int { full_scale } => match read_int_samples(bytes) {
            Ok(samples) => Ok(
                DecodedWav {
                    channels: header.channels,
                    sample_rate_hz: header.sample_rate_hz,
                    samples: WavSamples::Int { samples, full_scale },
                },
            ),
            Err(detail) => Err(WavError::Decode { detail }),
        },
    }
}

// ---------------------------------------------------------------------------
// Errors in words
// ---------------------------------------------------------------------------
pub open spec fn open_words(purpose: WavUse) -> Seq<char> {
    match purpose {
        WavUse::Recording => "failed to create WAV reader: "@,
        WavUse::Preview => "failed to create preview WAV reader: "@,
        WavUse::Quality => "failed to create WAV reader: "@,
        WavUse::Speaker => "failed to create speaker WAV reader: "@,
        WavUse::Offline => "failed to create offline WAV reader: "@,
    }
}

pub open spec fn mono_words(purpose: WavUse) -> Seq<char> {
    match purpose {
        WavUse::Recording => "training recording must be mono WAV, got "@,
        WavUse::Preview => "recording preview only supports mono WAV input, got "@,
        WavUse::Quality => "quality checker only supports mono WAV input, got "@,
        WavUse::Speaker => "speaker embedding extractor only supports mono WAV input, got "@,
        WavUse::Offline => "offline WAV must have at least one channel: "@,
    }
}

pub open spec fn bits_words(purpose: WavUse) -> Seq<char> {
    match purpose {
        WavUse::Recording => "unsupported WAV bits per sample "@,
        WavUse::Preview => "unsupported preview WAV bits per sample "@,
        WavUse::Quality => "unsupported integer WAV bits per sample "@,
        WavUse::Speaker => "unsupported speaker WAV bits per sample "@,
        WavUse::Offline => "unsupported offline WAV bits per sample "@,
    }
}

pub open spec fn decode_words(purpose: WavUse) -> Seq<char> {
    match purpose {
        WavUse::Recording => "failed to decode WAV sample: "@,
        WavUse::Preview => "failed to decode preview WAV sample: "@,
        WavUse::Quality => "failed to decode WAV sample: "@,
        WavUse::Speaker => "failed to decode speaker WAV sample: "@,
        WavUse::Offline => "failed to decode offline WAV sample: "@,
    }
}

impl WavError {
    pub open spec fn spec_message(self, purpose: WavUse, path: Seq<char>) -> Seq<char> {
        match self {
            WavError::Open { .. } => open_words(purpose) + path,
            WavError::Channels { channels } => if purpose == WavUse::Offline {
                mono_words(purpose) + path
            } else {
                mono_words(purpose) + text::decimal(channels as nat) + " channels at "@ + path
            },
            WavError::BitsPerSample { bits } => bits_words(purpose) + text::decimal(bits as nat)
                + " at "@ + path,
            WavError::Decode { detail } => decode_words(purpose) + detail@,
        }
    }

    /// The error in words, for the file at `path`.
    pub fn message(&self, purpose: WavUse, path: &str) -> (r: String)
        ensures
            r@ == self.spec_message(purpose, path@),
    {
        match self {
            WavError::Open { .. } => {
                let words = match purpose {
                    WavUse::Recording => "failed to create WAV reader: ",
                    WavUse::Preview => "failed to create preview WAV reader: ",
                    WavUse::Quality => "failed to create WAV reader: ",
                    WavUse::Speaker => "failed to create speaker WAV reader: ",
                    WavUse::Offline => "failed to create offline WAV reader: ",
                };
                text::joined(words, path)
            },
            WavError::Channels { channels } => {
                let words = match purpose {
                    WavUse::Recording => "training recording must be mono WAV, got ",
                    WavUse::Preview => "recording preview only supports mono WAV input, got ",
                    WavUse::Quality => "quality checker only supports mono WAV input, got ",
                    WavUse::Speaker => {
                        "speaker embedding extractor only supports mono WAV input, got "
                    },
                    WavUse::Offline => {
                        return text::joined("offline WAV must have at least one channel: ", path);
                    },
                };
                let number = text::decimal_text(*channels as u64);
                let mut message = text::joined3(words, number.as_str(), " channels at ");
                message.append(path);
                message
            },
            WavError::BitsPerSample { bits } => {
                let words = match purpose {
                    WavUse::Recording => "unsupported WAV bits per sample ",
                    WavUse::Preview => "unsupported preview WAV bits per sample ",
                    WavUse::Quality => "unsupported integer WAV bits per sample ",
                    WavUse::Speaker => "unsupported speaker WAV bits per sample ",
                    WavUse::Offline => "unsupported offline WAV bits per sample ",
                };
                let number = text::decimal_text(*bits as u64);
                let mut message = text::joined3(words, number.as_str(), " at ");
                message.append(path);
                message
            },
            WavError::Decode { detail } => {
                let words = match purpose {
                    WavUse::Recording => "failed to decode WAV sample: ",
                    WavUse::Preview => "failed to decode preview WAV sample: ",
                    WavUse::Quality => "failed to decode WAV sample: ",
                    WavUse::Speaker => "failed to decode speaker WAV sample: ",
                    WavUse::Offline => "failed to decode offline WAV sample: ",
                };
                text::joined(words, detail.as_str())
            },
        }
    }
}

/// A file that is used has the channels its purpose asks for: one for a training recording, any
/// for a file to be filtered; and integer samples of 1 to 32 bits, handed on as they were decoded.
pub proof fn only_fitting_files_are_used(
    r: Result<DecodedWav, WavError>,
    purpose: WavUse,
    header: Result<(u16, u32, u16, bool), Seq<char>>,
    samples: Result<Seq<i32>, Seq<char>>,
)
    requires
        decoded_as(r, purpose, header, samples),
    ensures
        r matches Ok(wav) ==> {
            let (channels, rate, bits, is_float) = header->Ok_0;
            &&& header is Ok
            &&& wav.channels == channels
            &&& wav.sample_rate_hz == rate
            &&& purpose != WavUse::Offline ==> channels == 1
            &&& channels >= 1
            &&& wav.samples is Float <==> is_float
            &&& !is_float ==> 1 <= bits <= 32 && samples is Ok && wav.samples->samples@
                == samples->Ok_0 && wav.samples->full_scale * 2 == pow2(bits as nat)
        },
        header is Err ==> (r is Err && r->Err_0 is Open),
        header matches Ok((channels, rate, bits, is_float)) ==> {
            &&& channels != 1 && purpose != WavUse::Offline ==> (r is Err && r->Err_0 is Channels)
            &&& channels == 1 && is_float ==> r is Ok
            &&& channels == 1 && !is_float && (bits == 0 || bits > 32) ==> (r is Err && r->Err_0 is BitsPerSample)
            &&& channels == 1 && !is_float && 1 <= bits <= 32 && samples is Ok ==> r is Ok
            &&& channels == 1 && !is_float && 1 <= bits <= 32 && samples is Err ==> (r is Err && r->Err_0 is Decode)
            &&& channels > 1 && purpose == WavUse::Offline && is_float ==> r is Ok
        },
{
    if header is Ok {
        let bits = header->Ok_0.2;
        if 1 <= bits {
            lemma_pow2_unfold(bits as nat);
        }
    }
}

/// A refusal carries what it is about: the complaint about the file or its samples, the number of
/// channels, the number of bits.
pub proof fn refusals_say_what_was_found(
    r: Result<DecodedWav, WavError>,
    purpose: WavUse,
    header: Result<(u16, u32, u16, bool), Seq<char>>,
    samples: Result<Seq<i32>, Seq<char>>,
)
    requires
        decoded_as(r, purpose, header, samples),
        r is Err,
    ensures
        match r->Err_0 {
            WavError::Open { detail } => header is Err && header->Err_0 == detail@,
            WavError::Channels { channels } => header is Ok && header->Ok_0.0 == channels,
            WavError::BitsPerSample { bits } => header is Ok && header->Ok_0.2 == bits,
            WavError::Decode { detail } => samples is Err && samples->Err_0 == detail@,
        },
{
}

/// What is said of a file that cannot be used ends with its path, or, where its samples cannot be
/// decoded, with the complaint.
pub proof fn messages_end_with_their_subject(error: WavError, purpose: WavUse, path: Seq<char>)
    ensures
        ({
            let words = error.spec_message(purpose, path);
            let subject = match error {
                WavError::Decode { detail } => detail@,
                _ => path,
            };
            words.len() >= subject.len() && words.skip(words.len() - subject.len()) == subject
        }),
{
    let words = error.spec_message(purpose, path);
    let subject = match error {
        WavError::Decode { detail } => detail@,
        _ => path,
    };
    assert(words.skip(words.len() - subject.len()) =~= subject);
}

} // verus!
