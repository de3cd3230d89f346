//! The ring buffers that carry samples between threads.
//!
//! A sample travels as the encoding of a binary32 number. What one side has put
//! in, and what the other side has taken out, is modelled as the history of that
//! side alone: when a sample put in becomes visible to the other side is up to
//! the threads.

use crate::audio::buffers;
use crate::util::float32::Float32;
use vstd::prelude::*;

verus! {

/// The writing end of a ring buffer of the crate `rtrb`.
#[verifier::external_type_specification]
#[verifier::external_body]
#[verifier::reject_recursive_types(T)]
pub struct ExProducer<T>(rtrb::Producer<T>);

/// The reading end of a ring buffer of the crate `rtrb`.
#[verifier::external_type_specification]
#[verifier::external_body]
#[verifier::reject_recursive_types(T)]
pub struct ExConsumer<T>(rtrb::Consumer<T>);

/// All that was ever put in through a writing end, in order.
pub uninterp spec fn put_in(producer: rtrb::Producer<u32>) -> Seq<u32>;

/// How many samples the buffer behind a writing end holds.
pub uninterp spec fn room(producer: rtrb::Producer<u32>) -> nat;

/// All that was ever taken out through a reading end, in order.
pub uninterp spec fn taken_out(consumer: rtrb::Consumer<u32>) -> Seq<u32>;

/// How many samples a reading end knows to be waiting: what
/// `rtrb::Consumer::cached_slots` returns. More may be there, never fewer.
pub uninterp spec fn ready(consumer: rtrb::Consumer<u32>) -> nat;

/// `rtrb::RingBuffer::new`: a buffer of the given size, into which nothing was put
/// and from which nothing was taken. The memory for it must be addressable.
#[verifier::external_body]
fn new_ring(capacity: usize) -> (r: (rtrb::Producer<u32>, rtrb::Consumer<u32>))
    requires
        capacity * 4 <= isize::MAX,
    ensures
        put_in(r.0) == Seq::<u32>::empty(),
        room(r.0) == capacity,
        taken_out(r.1) == Seq::<u32>::empty(),
        ready(r.1) == 0,
{
    rtrb::RingBuffer::new(capacity)
}

/// `rtrb::Producer::push`: puts a sample in unless the buffer is full. It cannot
/// be full as long as fewer samples were put in than it holds. Whether it is full
/// later on depends on the other side.
#[verifier::external_body]
fn push_sample(producer: &mut rtrb::Producer<u32>, bits: u32) -> (r: bool)
    ensures
        room(*final(producer)) == room(*old(producer)),
        put_in(*final(producer)) == if r {
            put_in(*old(producer)).push(bits)
        } else {
            put_in(*old(producer))
        },
        put_in(*old(producer)).len() < room(*old(producer)) ==> r,
{
    producer.push(bits).is_ok()
}

/// `rtrb::Consumer::pop`: takes the oldest sample out unless the buffer is empty.
/// It is not empty while the reading end knows of a sample. Otherwise it looks
/// anew; whether there is one then, and which sample is the oldest, depends on the
/// other side.
#[verifier::external_body]
fn pop_sample(consumer: &mut rtrb::Consumer<u32>) -> (r: Option<u32>)
    ensures
        taken_out(*final(consumer)) == match r {
            Some(bits) => taken_out(*old(consumer)).push(bits),
            None => taken_out(*old(consumer)),
        },
        ready(*old(consumer)) > 0 ==> r is Some && ready(*final(consumer)) == ready(*old(consumer))
            - 1,
        r is None ==> ready(*final(consumer)) == 0,
{
    consumer.pop().ok()
}

/// `rtrb::Consumer::slots`: looks anew how many samples are waiting. Those that
/// were known are among them; how many came since depends on the other side.
#[verifier::external_body]
fn waiting_samples(consumer: &mut rtrb::Consumer<u32>) -> (r: usize)
    ensures
        ready(*final(consumer)) == r,
        ready(*old(consumer)) <= r,
        taken_out(*final(consumer)) == taken_out(*old(consumer)),
{
    consumer.slots()
}

/// The encodings of samples.
pub open spec fn encoded(samples: Seq<Float32>) -> Seq<u32> {
    samples.map_values(|s: Float32| s.bits)
}

/// `n` samples of silence.
pub open spec fn silence(n: nat) -> Seq<u32> {
    Seq::new(n, |i: int| 0u32)
}

/// A link from an input to an output.
pub struct Link {
    pub producer: rtrb::Producer<u32>,
    pub consumer: rtrb::Consumer<u32>,
    /// How much silence was put in at the start.
    pub primed: usize,
}

/// Whether the buffer of a link at this rate can be addressed.
pub open spec fn addressable(capacity: int) -> bool {
    capacity * 4 <= isize::MAX
}

impl Link {
    /// A buffer that holds `capacity` samples and starts with `primed` samples of
    /// silence.
    pub fn open(capacity: usize, primed: usize) -> (r: Self)
        requires
            addressable(capacity as int),
            primed <= capacity,
        ensures
            put_in(r.producer) == silence(primed as nat),
            room(r.producer) == capacity,
            taken_out(r.consumer) == Seq::<u32>::empty(),
            ready(r.consumer) == 0,
            r.primed == primed,
    {
        let (producer, consumer) = new_ring(capacity);
        let mut producer = producer;
        let mut i: usize = 0;
        assert(put_in(producer) =~= silence(0));
        while i < primed
            invariant
                i <= primed <= capacity,
                room(producer) == capacity,
                put_in(producer) == silence(i as nat),
            decreases primed - i,
        {
            push_sample(&mut producer, 0);
            i = i + 1;
            assert(put_in(producer) =~= silence(i as nat));
        }
        Link { producer, consumer, primed }
    }

    /// The link of a passthrough at a sample rate.
    pub fn passthrough(sample_rate_hz: u32) -> (r: Self)
        requires
            addressable(buffers::link_capacity(sample_rate_hz, 4)),
        ensures
            r.primed == buffers::samples_in(sample_rate_hz, buffers::PASSTHROUGH_LATENCY_MS, 256),
            put_in(r.producer) == silence(r.primed as nat),
            room(r.producer) == buffers::link_capacity(sample_rate_hz, 4),
            taken_out(r.consumer) == Seq::<u32>::empty(),
            ready(r.consumer) == 0,
    {
        Link::open(
            buffers::link_capacity_samples(sample_rate_hz, 4),
            buffers::latency_samples(sample_rate_hz),
        )
    }

    /// The link from the input to the filter at a sample rate.
    pub fn filter_input(sample_rate_hz: u32) -> (r: Self)
        requires
            addressable(buffers::link_capacity(sample_rate_hz, 6)),
        ensures
            r.primed == 0,
            put_in(r.producer) == Seq::<u32>::empty(),
            room(r.producer) == buffers::link_capacity(sample_rate_hz, 6),
            taken_out(r.consumer) == Seq::<u32>::empty(),
            ready(r.consumer) == 0,
    {
        let link = Link::open(buffers::link_capacity_samples(sample_rate_hz, 6), 0);
        assert(silence(0) =~= Seq::<u32>::empty());
        link
    }

    /// The link from the filter to the output at a sample rate.
    pub fn filter_output(sample_rate_hz: u32) -> (r: Self)
        requires
            addressable(buffers::link_capacity(sample_rate_hz, 6)),
        ensures
            r.primed == buffers::samples_in(sample_rate_hz, buffers::PASSTHROUGH_LATENCY_MS, 256),
            put_in(r.producer) == silence(r.primed as nat),
            room(r.producer) == buffers::link_capacity(sample_rate_hz, 6),
            taken_out(r.consumer) == Seq::<u32>::empty(),
            ready(r.consumer) == 0,
    {
        Link::open(
            buffers::link_capacity_samples(sample_rate_hz, 6),
            buffers::latency_samples(sample_rate_hz),
        )
    }

    /// The link of a training recording at a sample rate.
    pub fn recording(sample_rate_hz: u32) -> (r: Self)
        requires
            addressable(
                buffers::greater(
                    buffers::samples_in(
                        sample_rate_hz,
                        buffers::PASSTHROUGH_RING_BUFFER_MS,
                        2048,
                    ),
                    sample_rate_hz as int,
                ),
            ),
        ensures
            r.primed == 0,
            put_in(r.producer) == Seq::<u32>::empty(),
            room(r.producer) == buffers::greater(
                buffers::samples_in(sample_rate_hz, buffers::PASSTHROUGH_RING_BUFFER_MS, 2048),
                sample_rate_hz as int,
            ),
            taken_out(r.consumer) == Seq::<u32>::empty(),
            ready(r.consumer) == 0,
    {
        let link = Link::open(buffers::recording_capacity_samples(sample_rate_hz), 0);
        assert(silence(0) =~= Seq::<u32>::empty());
        link
    }
}

// ---------------------------------------------------------------------------
// The input side
// ---------------------------------------------------------------------------
/// What happened to a block of input.
#[derive(Debug, Clone, Copy, PartialEq, Eq, Structural)]
pub struct InputMeter {
    /// The largest magnitude.
    pub peak: Float32,
    /// How many samples found no room.
    pub dropped: u64,
}

impl InputMeter {
    pub fn new() -> (r: Self)
        ensures
            r.peak.bits == 0,
            r.dropped == 0,
    {
        InputMeter { peak: Float32 { bits: 0 }, dropped: 0 }
    }

    /// Puts a sample in; one that finds no room is counted as dropped.
    pub fn capture(&mut self, producer: &mut rtrb::Producer<u32>, sample: Float32)
        requires
            old(self).dropped < u64::MAX,
        ensures
            final(self).peak == old(self).peak.spec_larger(sample.spec_abs()),
            room(*final(producer)) == room(*old(producer)),
            ({
                ||| put_in(*final(producer)) == put_in(*old(producer)).push(sample.bits)
                    && final(self).dropped == old(self).dropped
                ||| put_in(*final(producer)) == put_in(*old(producer)) && final(self).dropped
                    == old(self).dropped + 1
            }),
            put_in(*old(producer)).len() < room(*old(producer)) ==> final(self).dropped
                == old(self).dropped,
    {
        self.peak = self.peak.larger(sample.abs());
        if !push_sample(producer, sample.bits) {
            self.dropped = self.dropped + 1;
        }
    }
}

// ---------------------------------------------------------------------------
// The output side
// ---------------------------------------------------------------------------
/// What happened to a block of output.
#[derive(Debug, Clone, Copy, PartialEq, Eq, Structural)]
pub struct OutputMeter {
    /// The largest magnitude.
    pub peak: Float32,
    /// How many samples were there in time.
    pub delivered: u64,
    /// How many were not, and were played as silence.
    pub missing: u64,
}

impl OutputMeter {
    pub fn new() -> (r: Self)
        ensures
            r.peak.bits == 0,
            r.delivered == 0,
            r.missing == 0,
    {
        OutputMeter { peak: Float32 { bits: 0 }, delivered: 0, missing: 0 }
    }

    /// Takes the next sample out; silence where there is none.
    pub fn play(&mut self, consumer: &mut rtrb::Consumer<u32>) -> (r: Float32)
        requires
            old(self).delivered < u64::MAX,
            old(self).missing < u64::MAX,
        ensures
            final(self).peak == old(self).peak.spec_larger(r.spec_abs()),
            ({
                ||| taken_out(*final(consumer)) == taken_out(*old(consumer)).push(r.bits)
                    && final(self).delivered == old(self).delivered + 1 && final(self).missing
                    == old(self).missing
                ||| taken_out(*final(consumer)) == taken_out(*old(consumer)) && r.bits == 0
                    && final(self).delivered == old(self).delivered && final(self).missing
                    == old(self).missing + 1 && ready(*old(consumer)) == 0
            }),
    {
        let sample = match pop_sample(consumer) {
            Some(bits) => {
                self.delivered = self.delivered + 1;
                Float32 { bits }
            },
            None => {
                self.missing = self.missing + 1;
                Float32 { bits: 0 }
            },
        };
        self.peak = self.peak.larger(sample.abs());
        sample
    }
}

/// Puts samples in up to the first that finds no room, and tells how many.
pub fn put_samples(producer: &mut rtrb::Producer<u32>, samples: &Vec<Float32>) -> (r: usize)
    ensures
        r <= samples@.len(),
        put_in(*final(producer)) == put_in(*old(producer)) + encoded(samples@.take(r as int)),
        room(*final(producer)) == room(*old(producer)),
        put_in(*old(producer)).len() + samples@.len() <= room(*old(producer)) ==> r
            == samples@.len(),
{
    let ghost before = put_in(*producer);
    let ghost size = room(*producer);
    let mut i: usize = 0;
    assert(put_in(*producer) =~= before + encoded(samples@.take(0)));
    while i < samples.len()
        invariant
            i <= samples.len(),
            before == put_in(*old(producer)),
            size == room(*old(producer)),
            room(*producer) == size,
            put_in(*producer) == before + encoded(samples@.take(i as int)),
        decreases samples.len() - i,
    {
        if !push_sample(producer, samples[i].bits) {
            return i;
        }
        i = i + 1;
        assert(put_in(*producer) =~= before + encoded(samples@.take(i as int)));
    }
    i
}

// ---------------------------------------------------------------------------
// Draining
// ---------------------------------------------------------------------------
/// Takes out what is waiting, appends it to `samples` and raises `peak` to its
/// largest magnitude. Tells whether anything was waiting.
pub fn drain_waiting(
    consumer: &mut rtrb::Consumer<u32>,
    samples: &mut Vec<Float32>,
    peak: &mut Float32,
) -> (r: bool)
    ensures
        exists|news: Seq<Float32>|
            {
                &&& final(samples)@ == old(samples)@ + news
                &&& taken_out(*final(consumer)) == taken_out(*old(consumer)) + #[trigger] encoded(
                    news,
                )
                &&& *final(peak) == raised_peak(*old(peak), news)
                &&& r == (news.len() > 0)
                &&& ready(*old(consumer)) <= news.len()
            },
        ready(*final(consumer)) == 0,
{
    let ghost before = samples@;
    let ghost taken = taken_out(*consumer);
    let ghost level = *peak;
    let ghost mut news: Seq<Float32> = seq![];
    let count = waiting_samples(consumer);
    let mut left: usize = count;
    assert(samples@ =~= before + news);
    assert(taken_out(*consumer) =~= taken + encoded(news));
    while left > 0
        invariant
            left <= count,
            ready(*old(consumer)) <= count,
            ready(*consumer) == left,
            news.len() == count - left,
            before == old(samples)@,
            taken == taken_out(*old(consumer)),
            level == *old(peak),
            samples@ == before + news,
            taken_out(*consumer) == taken + encoded(news),
            *peak == raised_peak(level, news),
        decreases left,
    {
        if let Some(bits) = pop_sample(consumer) {
            let sample = Float32 { bits };
            *peak = (*peak).larger(sample.abs());
            samples.push(sample);
            proof {
                assert(news.push(sample).drop_last() =~= news);
                assert(encoded(news.push(sample)) =~= encoded(news).push(bits));
                news = news.push(sample);
                assert(samples@ =~= before + news);
                assert(taken_out(*consumer) =~= taken + encoded(news));
            }
        }
        left = left - 1;
    }
    count > 0
}

/// The largest of `level` and the magnitudes of samples.
pub open spec fn raised_peak(level: Float32, samples: Seq<Float32>) -> Float32
    decreases samples.len(),
{
    if samples.len() == 0 {
        level
    } else {
        raised_peak(level, samples.drop_last()).spec_larger(samples.last().spec_abs())
    }
}

// ---------------------------------------------------------------------------
// Chunks
// ---------------------------------------------------------------------------
/// Cuts a stream of samples into chunks of one size.
#[derive(Debug)]
pub struct ChunkAssembler {
    pub pending: Vec<Float32>,
    pub chunk_samples: usize,
}

impl ChunkAssembler {
    /// Chunks for filtering at a sample rate.
    pub fn new(sample_rate_hz: u32) -> (r: Self)
        ensures
            r.pending@ == Seq::<Float32>::empty(),
            r.chunk_samples == buffers::samples_in(
                sample_rate_hz,
                buffers::BASIC_FILTER_CHUNK_MS,
                512,
            ),
    {
        ChunkAssembler {
            pending: Vec::new(),
            chunk_samples: buffers::chunk_samples(sample_rate_hz),
        }
    }

    /// Takes in what is waiting.
    pub fn take_in(&mut self, consumer: &mut rtrb::Consumer<u32>)
        ensures
            final(self).chunk_samples == old(self).chunk_samples,
            exists|news: Seq<Float32>|
                {
                    &&& final(self).pending@ == old(self).pending@ + news
                    &&& taken_out(*final(consumer)) == taken_out(*old(consumer))
                        + #[trigger] encoded(news)
                    &&& ready(*old(consumer)) <= news.len()
                },
            ready(*final(consumer)) == 0,
    {
        let mut peak = Float32 { bits: 0 };
        drain_waiting(consumer, &mut self.pending, &mut peak);
    }

    /// The next chunk, as soon as there is a whole one.
    pub fn next_chunk(&mut self) -> (r: Option<Vec<Float32>>)
        ensures
            final(self).chunk_samples == old(self).chunk_samples,
            match r {
                Some(chunk) => chunk@.len() == old(self).chunk_samples && chunk@
                    + final(self).pending@ == old(self).pending@,
                None => old(self).pending@.len() < old(self).chunk_samples && final(self).pending@
                    == old(self).pending@,
            },
    {
        if self.pending.len() < self.chunk_samples {
            return None;
        }
        let ghost before = self.pending@;
        let rest = self.pending.split_off(self.chunk_samples);
        let mut chunk = rest;
        std::mem::swap(&mut chunk, &mut self.pending);
        assert(chunk@ + self.pending@ =~= before);
        Some(chunk)
    }
}

// ---------------------------------------------------------------------------
// Preview
// ---------------------------------------------------------------------------
/// Where the playback of a recording has got to.
#[derive(Debug, Clone, Copy, PartialEq, Eq, Structural)]
pub struct PreviewCursor {
    pub next: usize,
    pub finished: bool,
}

impl PreviewCursor {
    pub fn new() -> (r: Self)
        ensures
            r.next == 0,
            !r.finished,
    {
        PreviewCursor { next: 0, finished: false }
    }

    /// The next sample of the recording; silence after its end, by which playback
    /// is finished.
    pub fn play(&mut self, samples: &Vec<Float32>) -> (r: Float32)
        ensures
            old(self).next < samples@.len() ==> r == samples@[old(self).next as int]
                && final(self).next == old(self).next + 1 && final(self).finished
                == old(self).finished,
            old(self).next >= samples@.len() ==> r.bits == 0 && final(self).next
                == old(self).next && final(self).finished,
    {
        if self.next < samples.len() {
            let sample = samples[self.next];
            self.next = self.next + 1;
            sample
        } else {
            self.finished = true;
            Float32 { bits: 0 }
        }
    }
}

/// Samples go through a link by their encodings, one each and in order; silence is zeros.
pub proof fn samples_travel_unchanged(a: Seq<Float32>, b: Seq<Float32>, n: nat)
    ensures
        encoded(a).len() == a.len(),
        encoded(a) == encoded(b) ==> a == b,
        encoded(a + b) == encoded(a) + encoded(b),
        forall|i: int| 0 <= i < a.len() ==> #[trigger] encoded(a)[i] == a[i].bits,
        silence(n).len() == n,
        forall|i: int| 0 <= i < n ==> #[trigger] silence(n)[i] == 0,
{
    assert(encoded(a + b) =~= encoded(a) + encoded(b));
    if encoded(a) == encoded(b) {
        assert(a.len() == encoded(a).len() && b.len() == encoded(b).len());
        assert forall|i: int| 0 <= i < a.len() implies a[i] == b[i] by {
            assert(encoded(a)[i] == encoded(b)[i]);
        }
        assert(a =~= b);
    }
}

/// The peak rises to the largest magnitude and never falls.
pub proof fn peak_rises_to_the_loudest(level: Float32, samples: Seq<Float32>, i: int)
    requires
        !level.spec_is_nan(),
        forall|k: int| 0 <= k < samples.len() ==> !(#[trigger] samples[k]).spec_is_nan(),
        0 <= i < samples.len(),
    ensures
        level.at_most(raised_peak(level, samples)),
        samples[i].spec_abs().at_most(raised_peak(level, samples)),
        raised_peak(level, samples) == level || exists|k: int|
            0 <= k < samples.len() && raised_peak(level, samples) == (
            #[trigger] samples[k]).spec_abs(),
    decreases samples.len(),
{
    let rest = samples.drop_last();
    assert forall|k: int| 0 <= k < rest.len() implies !(#[trigger] rest[k]).spec_is_nan() by {
        assert(rest[k] == samples[k]);
    }
    let last = samples[samples.len() - 1];
    assert(last == samples.last());
    assert(!last.spec_abs().spec_is_nan());
    if rest.len() > 0 {
        let j = if i < rest.len() {
            i
        } else {
            0
        };
        peak_rises_to_the_loudest(level, rest, j);
        if raised_peak(level, rest) != level {
            let k = choose|k: int|
                0 <= k < rest.len() && raised_peak(level, rest) == (#[trigger] rest[k]).spec_abs();
            assert(samples[k] == rest[k]);
        }
    } else {
        assert(raised_peak(level, rest) == level);
    }
}

} // verus!
