//! Cutting a signal into frames.

use crate::util::float32::Float32;
use vstd::arithmetic::div_mod::*;
use vstd::arithmetic::mul::*;
use vstd::prelude::*;

verus! {

/// A stretch of a signal: from `start_sample` up to, not including,
/// `end_sample`.
#[derive(Debug, Clone, Copy, PartialEq, Eq, Structural)]
pub struct AudioFrame {
    pub start_sample: usize,
    pub end_sample: usize,
}

/// A stretch of audio with one channel.
#[derive(Debug)]
pub struct AudioClip {
    pub sample_rate_hz: u32,
    pub samples: Vec<Float32>,
}

/// The encoding of `-1.0`.
pub const MINUS_ONE_BITS: u32 = 0xBF80_0000;

/// `sample` moved between -1 and 1.
pub open spec fn unit_sample(sample: Float32) -> Float32 {
    sample.spec_clamped(Float32 { bits: MINUS_ONE_BITS }, Float32 { bits: 0x3F80_0000 })
}

/// The samples as they are written to and read from a file: each between -1 and 1.
pub fn unit_samples(samples: &Vec<Float32>) -> (r: Vec<Float32>)
    ensures
        r@ == samples@.map_values(|s: Float32| unit_sample(s)),
{
    let mut list: Vec<Float32> = Vec::new();
    let mut i: usize = 0;
    while i < samples.len()
        invariant
            i <= samples.len(),
            list@ == samples@.take(i as int).map_values(|s: Float32| unit_sample(s)),
        decreases samples.len() - i,
    {
        list.push(
            samples[i].clamped(Float32 { bits: MINUS_ONE_BITS }, Float32 { bits: 0x3F80_0000 }),
        );
        i = i + 1;
        assert(list@ =~= samples@.take(i as int).map_values(|s: Float32| unit_sample(s)));
    }
    assert(samples@.take(i as int) =~= samples@);
    list
}

/// How many frames of `frame_size` samples fit into a signal, one every
/// `hop_size` samples.
pub open spec fn regular_count(sample_count: int, frame_size: int, hop_size: int) -> int {
    if sample_count < frame_size {
        0
    } else {
        (sample_count - frame_size) / hop_size + 1
    }
}

/// The `k`-th frame.
pub open spec fn regular_frame(k: int, frame_size: int, hop_size: int) -> AudioFrame {
    AudioFrame {
        start_sample: (k * hop_size) as usize,
        end_sample: (k * hop_size + frame_size) as usize,
    }
}

/// All frames that fit, one every `hop_size` samples.
pub open spec fn regular_frames(sample_count: int, frame_size: int, hop_size: int) -> Seq<
    AudioFrame,
> {
    Seq::new(
        regular_count(sample_count, frame_size, hop_size) as nat,
        |k: int| regular_frame(k, frame_size, hop_size),
    )
}

/// The frames of a signal. A signal that is no longer than a frame is one
/// frame. Otherwise the frames stand `hop_size` samples apart, and a last one
/// reaches to the end where they leave samples over.
pub open spec fn framed(
    sample_count: int,
    sample_rate_hz: u32,
    frame_size: int,
    hop_size: int,
) -> Seq<AudioFrame> {
    if sample_count == 0 || sample_rate_hz == 0 {
        seq![]
    } else if sample_count <= frame_size {
        seq![AudioFrame { start_sample: 0, end_sample: sample_count as usize }]
    } else {
        let regular = regular_frames(sample_count, frame_size, hop_size);
        if regular.last().end_sample < sample_count {
            regular.push(
                AudioFrame {
                    start_sample: (sample_count - frame_size) as usize,
                    end_sample: sample_count as usize,
                },
            )
        } else {
            regular
        }
    }
}

/// The `k`-th frame fits exactly where `k` is below the count.
pub proof fn lemma_regular_frame_fits(sample_count: int, frame_size: int, hop_size: int, k: int)
    requires
        0 < hop_size,
        0 <= frame_size,
        0 <= k,
    ensures
        k < regular_count(sample_count, frame_size, hop_size) <==> k * hop_size + frame_size
            <= sample_count,
        0 <= k * hop_size,
{
    let room = sample_count - frame_size;
    lemma_mul_nonnegative(k, hop_size);
    if room >= 0 {
        lemma_fundamental_div_mod(room, hop_size);
        let q = room / hop_size;
        assert(hop_size * q == q * hop_size) by (nonlinear_arith);
        assert(0 <= room % hop_size < hop_size) by {
            lemma_mod_bound(room, hop_size);
        }
        if k <= q {
            lemma_mul_inequality(k, q, hop_size);
        } else {
            lemma_mul_inequality(q + 1, k, hop_size);
            assert((q + 1) * hop_size == q * hop_size + hop_size) by (nonlinear_arith);
        }
    }
}

/// All frames of `frame_size` samples that fit into a signal, one every
/// `hop_size` samples.
pub fn regular_frame_list(sample_count: usize, frame_size: usize, hop_size: usize) -> (r: Vec<
    AudioFrame,
>)
    requires
        hop_size > 0,
    ensures
        r@ == regular_frames(sample_count as int, frame_size as int, hop_size as int),
{
    let mut frames: Vec<AudioFrame> = Vec::new();
    let ghost n: int = sample_count as int;
    let ghost f: int = frame_size as int;
    let ghost h: int = hop_size as int;
    let ghost mut k: int = 0;
    let mut start: usize = 0;
    let mut more = frame_size <= sample_count;
    while more
        invariant
            hop_size > 0,
            n == sample_count,
            f == frame_size,
            h == hop_size,
            0 <= k,
            frames@ == Seq::new(k as nat, |i: int| regular_frame(i, f, h)),
            k <= regular_count(n, f, h),
            more ==> start == k * h && start + f <= n,
            !more ==> k == regular_count(n, f, h),
            more ==> k < regular_count(n, f, h),
        decreases regular_count(n, f, h) - k,
    {
        frames.push(AudioFrame { start_sample: start, end_sample: start + frame_size });
        proof {
            lemma_regular_frame_fits(n, f, h, k + 1);
            assert((k + 1) * h == k * h + h) by (nonlinear_arith);
            assert(frames@ =~= Seq::new((k + 1) as nat, |i: int| regular_frame(i, f, h)));
            k = k + 1;
        }
        if hop_size <= sample_count - frame_size - start {
            start = start + hop_size;
        } else {
            more = false;
        }
    }
    frames
}

/// Cuts a signal of `sample_count` samples into frames.
pub fn frame_signal(
    sample_count: usize,
    sample_rate_hz: u32,
    frame_size: usize,
    hop_size: usize,
) -> (r: Vec<AudioFrame>)
    requires
        frame_size > 0,
        hop_size > 0,
    ensures
        r@ == framed(sample_count as int, sample_rate_hz, frame_size as int, hop_size as int),
{
    if sample_count == 0 || sample_rate_hz == 0 {
        return Vec::new();
    }
    let mut frames: Vec<AudioFrame> = Vec::new();
    if sample_count <= frame_size {
        frames.push(AudioFrame { start_sample: 0, end_sample: sample_count });
        assert(frames@ =~= framed(
            sample_count as int,
            sample_rate_hz,
            frame_size as int,
            hop_size as int,
        ));
        return frames;
    }
    frames = regular_frame_list(sample_count, frame_size, hop_size);
    proof {
        lemma_regular_frame_fits(sample_count as int, frame_size as int, hop_size as int, 0);
    }
    let last = frames[frames.len() - 1];
    if last.end_sample < sample_count {
        frames.push(
            AudioFrame { start_sample: sample_count - frame_size, end_sample: sample_count },
        );
    }
    frames
}

/// Every frame is a stretch of the signal that holds at least one sample.
pub proof fn frames_lie_in_signal(
    sample_count: usize,
    sample_rate_hz: u32,
    frame_size: usize,
    hop_size: usize,
    k: int,
)
    requires
        frame_size > 0,
        hop_size > 0,
        0 <= k < framed(
            sample_count as int,
            sample_rate_hz,
            frame_size as int,
            hop_size as int,
        ).len(),
    ensures
        ({
            let frame = framed(
                sample_count as int,
                sample_rate_hz,
                frame_size as int,
                hop_size as int,
            )[k];
            frame.start_sample < frame.end_sample <= sample_count
        }),
{
    let n = sample_count as int;
    let f = frame_size as int;
    let h = hop_size as int;
    lemma_regular_frame_fits(n, f, h, k);
}

/// Frames that stand no further apart than they are long leave no sample out.
pub proof fn frames_cover_signal(
    sample_count: usize,
    sample_rate_hz: u32,
    frame_size: usize,
    hop_size: usize,
    sample: int,
)
    requires
        sample_rate_hz > 0,
        0 < hop_size <= frame_size,
        0 <= sample < sample_count,
    ensures
        exists|k: int|
            0 <= k < framed(
                sample_count as int,
                sample_rate_hz,
                frame_size as int,
                hop_size as int,
            ).len() && (#[trigger] framed(
                sample_count as int,
                sample_rate_hz,
                frame_size as int,
                hop_size as int,
            )[k]).start_sample <= sample < framed(
                sample_count as int,
                sample_rate_hz,
                frame_size as int,
                hop_size as int,
            )[k].end_sample,
{
    let n = sample_count as int;
    let f = frame_size as int;
    let h = hop_size as int;
    let frames = framed(n, sample_rate_hz, f, h);
    if n <= f {
        assert(frames[0].start_sample <= sample < frames[0].end_sample);
    } else {
        let count = regular_count(n, f, h);
        lemma_regular_frame_fits(n, f, h, 0);
        let k = sample / h;
        lemma_fundamental_div_mod(sample, h);
        lemma_mod_bound(sample, h);
        lemma_div_pos_is_pos(sample, h);
        assert(h * k == k * h) by (nonlinear_arith);
        if k < count {
            lemma_regular_frame_fits(n, f, h, k);
            assert(frames[k] == regular_frame(k, f, h));
            assert(frames[k].start_sample <= sample < frames[k].end_sample);
        } else {
            // The frames end before `sample` or reach past it with the last one.
            let last = count - 1;
            lemma_regular_frame_fits(n, f, h, last);
            lemma_regular_frame_fits(n, f, h, count);
            assert(count * h == last * h + h) by (nonlinear_arith)
                requires
                    last == count - 1,
            ;
            lemma_mul_inequality(count, k, h);
            let regular = regular_frames(n, f, h);
            assert(regular[last] == regular_frame(last, f, h));
            assert(regular.last() == regular[last]);
            if last * h + f < n {
                let tail = frames[count];
                assert(tail.start_sample == n - f && tail.end_sample == n);
                assert(tail.start_sample <= sample);
                assert(frames[count].start_sample <= sample < frames[count].end_sample);
            } else {
                assert(frames[last] == regular[last]);
                assert(frames[last].start_sample <= sample < frames[last].end_sample);
            }
        }
    }
}

// ---------------------------------------------------------------------------
// Overlap
// ---------------------------------------------------------------------------
/// Whether `sample` stands in the frame.
pub open spec fn holds_sample(frame: AudioFrame, sample: int) -> bool {
    frame.start_sample <= sample < frame.end_sample
}

/// In how many of the first `n` frames `sample` stands.
pub open spec fn overlap(frames: Seq<AudioFrame>, sample: int, n: int) -> nat
    decreases n,
{
    if n <= 0 {
        0
    } else {
        overlap(frames, sample, n - 1) + if holds_sample(frames[n - 1], sample) {
            1nat
        } else {
            0nat
        }
    }
}

/// In how many frames every sample of a signal stands: what its gains are averaged
/// over.
pub fn frame_overlaps(sample_count: usize, frames: &Vec<AudioFrame>) -> (r: Vec<usize>)
    ensures
        r@.len() == sample_count,
        forall|i: int|
            0 <= i < sample_count ==> #[trigger] r@[i] == overlap(
                frames@,
                i,
                frames@.len() as int,
            ),
{
    let mut counts: Vec<usize> = Vec::new();
    let mut i: usize = 0;
    while i < sample_count
        invariant
            i <= sample_count,
            counts@.len() == i,
            forall|k: int| 0 <= k < i ==> #[trigger] counts@[k] == 0,
        decreases sample_count - i,
    {
        counts.push(0);
        i = i + 1;
    }
    let mut n: usize = 0;
    while n < frames.len()
        invariant
            n <= frames.len(),
            counts@.len() == sample_count,
            forall|k: int|
                0 <= k < sample_count ==> #[trigger] counts@[k] == overlap(frames@, k, n as int),
            forall|k: int| 0 <= k < sample_count ==> #[trigger] counts@[k] <= n,
        decreases frames.len() - n,
    {
        let frame = frames[n];
        let stop: usize = if frame.end_sample < sample_count {
            frame.end_sample
        } else {
            sample_count
        };
        let mut at: usize = frame.start_sample;
        while at < stop
            invariant
                n < frames.len(),
                frame == frames@[n as int],
                frame.start_sample <= at,
                stop <= sample_count,
                stop <= frame.end_sample,
                stop == frame.end_sample || stop == sample_count,
                counts@.len() == sample_count,
                forall|k: int|
                    0 <= k < sample_count ==> #[trigger] counts@[k] == overlap(
                        frames@,
                        k,
                        n as int,
                    ) + if frame.start_sample <= k < at && k < stop {
                        1nat
                    } else {
                        0nat
                    },
                forall|k: int| 0 <= k < sample_count ==> #[trigger] counts@[k] <= n + 1,
                forall|k: int| at <= k < sample_count ==> #[trigger] counts@[k] <= n,
            decreases stop - at,
        {
            let count: usize = counts[at];
            counts.set(at, count + 1);
            at = at + 1;
        }
        n = n + 1;
    }
    counts
}

proof fn lemma_overlap_positive(frames: Seq<AudioFrame>, sample: int, k: int, n: int)
    requires
        0 <= k < n <= frames.len(),
        holds_sample(frames[k], sample),
    ensures
        overlap(frames, sample, n) > 0,
    decreases n,
{
    if k < n - 1 {
        lemma_overlap_positive(frames, sample, k, n - 1);
    }
}

/// Frames that stand no further apart than they are long leave no sample without a
/// gain.
pub proof fn every_sample_has_a_gain(
    sample_count: usize,
    sample_rate_hz: u32,
    frame_size: usize,
    hop_size: usize,
    sample: int,
)
    requires
        sample_rate_hz > 0,
        0 < hop_size <= frame_size,
        0 <= sample < sample_count,
    ensures
        ({
            let frames = framed(
                sample_count as int,
                sample_rate_hz,
                frame_size as int,
                hop_size as int,
            );
            overlap(frames, sample, frames.len() as int) > 0
        }),
{
    let frames = framed(sample_count as int, sample_rate_hz, frame_size as int, hop_size as int);
    frames_cover_signal(sample_count, sample_rate_hz, frame_size, hop_size, sample);
    let k = choose|k: int|
        0 <= k < frames.len() && (#[trigger] frames[k]).start_sample <= sample
            < frames[k].end_sample;
    lemma_overlap_positive(frames, sample, k, frames.len() as int);
}

/// A sample between -1 and 1 is kept as it is; a louder one is cut to the nearer end.
pub proof fn unit_samples_are_only_cut(sample: Float32)
    requires
        !sample.spec_is_nan(),
    ensures
        (Float32 { bits: 0xBF80_0000 }).at_most(unit_sample(sample)),
        unit_sample(sample).at_most(Float32 { bits: 0x3F80_0000 }),
        (Float32 { bits: 0xBF80_0000 }).at_most(sample) && sample.at_most(
            Float32 { bits: 0x3F80_0000 },
        ) ==> unit_sample(sample) == sample,
        (Float32 { bits: 0x3F80_0000 }).less(sample) ==> unit_sample(sample).bits == 0x3F80_0000,
        sample.less(Float32 { bits: 0xBF80_0000 }) ==> unit_sample(sample).bits == 0xBF80_0000,
{
    crate::util::float32::lemma_scaled_order(
        Float32 { bits: 0xBF80_0000 },
        Float32 { bits: 0x3F80_0000 },
    );
}

/// In a signal longer than a frame all frames have the size of a frame, the first begins with the
/// signal, the last ends with it, and each begins one hop behind the one before, but for the last,
/// which may begin sooner.
pub proof fn frames_stand_one_hop_apart(
    sample_count: usize,
    sample_rate_hz: u32,
    frame_size: usize,
    hop_size: usize,
    k: int,
)
    requires
        sample_rate_hz > 0,
        frame_size > 0,
        hop_size > 0,
        sample_count > frame_size,
        0 <= k < framed(
            sample_count as int,
            sample_rate_hz,
            frame_size as int,
            hop_size as int,
        ).len(),
    ensures
        ({
            let frames = framed(
                sample_count as int,
                sample_rate_hz,
                frame_size as int,
                hop_size as int,
            );
            &&& frames[k].end_sample - frames[k].start_sample == frame_size
            &&& frames[0].start_sample == 0
            &&& frames.last().end_sample == sample_count
            &&& k + 1 < frames.len() ==> frames[k].start_sample < frames[k + 1].start_sample
                <= frames[k].start_sample + hop_size
            &&& k + 2 < frames.len() ==> frames[k + 1].start_sample == frames[k].start_sample
                + hop_size
        }),
{
    let n = sample_count as int;
    let f = frame_size as int;
    let h = hop_size as int;
    let frames = framed(n, sample_rate_hz, f, h);
    let regular = regular_frames(n, f, h);
    let count = regular_count(n, f, h);
    lemma_regular_frame_fits(n, f, h, 0);
    lemma_regular_frame_fits(n, f, h, k);
    lemma_regular_frame_fits(n, f, h, k + 1);
    lemma_regular_frame_fits(n, f, h, count - 1);
    lemma_regular_frame_fits(n, f, h, count);
    assert((k + 1) * h == k * h + h) by (nonlinear_arith);
    assert(count * h == (count - 1) * h + h) by (nonlinear_arith);
    assert(0 * h == 0);
    assert(regular[0] == regular_frame(0, f, h));
    assert(regular[count - 1] == regular_frame(count - 1, f, h));
    assert(regular.last() == regular[count - 1]);
    if k < count {
        assert(frames[k] == regular_frame(k, f, h));
    }
    if k + 1 < count {
        assert(frames[k + 1] == regular_frame(k + 1, f, h));
    }
}

/// A signal no longer than a frame is one frame; nothing gives no frames.
pub proof fn short_signals_are_one_frame(
    sample_count: usize,
    sample_rate_hz: u32,
    frame_size: usize,
    hop_size: usize,
)
    requires
        sample_count <= frame_size,
    ensures
        ({
            let frames = framed(
                sample_count as int,
                sample_rate_hz,
                frame_size as int,
                hop_size as int,
            );
            &&& sample_count == 0 || sample_rate_hz == 0 ==> frames.len() == 0
            &&& sample_count > 0 && sample_rate_hz > 0 ==> frames.len() == 1
                && frames[0].start_sample == 0 && frames[0].end_sample == sample_count
        }),
{
}

/// One frame more adds one to the overlap of each of its samples and nothing to the others.
pub proof fn overlaps_count_frames(frames: Seq<AudioFrame>, sample: int, n: int)
    requires
        0 <= n < frames.len(),
    ensures
        overlap(frames, sample, 0) == 0,
        overlap(frames, sample, n + 1) - overlap(frames, sample, n) == if frames[n].start_sample
            <= sample && sample < frames[n].end_sample {
            1int
        } else {
            0int
        },
{
}

/// Every place where a whole frame fits, a number of hops from the start, has its frame.
pub proof fn no_frame_is_left_out(sample_count: int, frame_size: int, hop_size: int, k: int)
    requires
        0 < hop_size,
        0 < frame_size,
        0 <= k,
        sample_count <= usize::MAX,
    ensures
        k * hop_size + frame_size <= sample_count <==> k < regular_frames(
            sample_count,
            frame_size,
            hop_size,
        ).len(),
        k * hop_size + frame_size <= sample_count ==> {
            let frame = regular_frames(sample_count, frame_size, hop_size)[k];
            frame.start_sample == k * hop_size && frame.end_sample == k * hop_size + frame_size
        },
{
    lemma_regular_frame_fits(sample_count, frame_size, hop_size, k);
    lemma_regular_frame_fits(sample_count, frame_size, hop_size, 0);
}

} // verus!
