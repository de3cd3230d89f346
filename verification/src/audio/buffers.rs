//! How large the buffers between devices are.

use vstd::prelude::*;

verus! {

/// How much silence is played before the first sample.
pub const PASSTHROUGH_LATENCY_MS: u32 = 60;

/// How much audio a ring buffer holds.
pub const PASSTHROUGH_RING_BUFFER_MS: u32 = 400;

/// How much audio is filtered at a time.
pub const BASIC_FILTER_CHUNK_MS: u32 = 120;

/// How many samples `millis` take at a sample rate, but no fewer than `least`.
pub open spec fn samples_in(sample_rate_hz: u32, millis: u32, least: int) -> int {
    let samples = sample_rate_hz as int * millis as int / 1000;
    if samples < least {
        least
    } else {
        samples
    }
}

fn sample_span(sample_rate_hz: u32, millis: u32, least: usize) -> (r: usize)
    requires
        millis <= 400,
    ensures
        r == samples_in(sample_rate_hz, millis, least as int),
{
    assert(sample_rate_hz * millis <= 0xFFFF_FFFF * 400) by (nonlinear_arith)
        requires
            0 <= sample_rate_hz <= 0xFFFF_FFFF,
            0 <= millis <= 400,
    ;
    let samples: u64 = sample_rate_hz as u64 * millis as u64 / 1000;
    if samples < least as u64 {
        least
    } else {
        samples as usize
    }
}

/// How many samples of silence are played before the first sample.
pub fn latency_samples(sample_rate_hz: u32) -> (r: usize)
    ensures
        r == samples_in(sample_rate_hz, PASSTHROUGH_LATENCY_MS, 256),
{
    sample_span(sample_rate_hz, PASSTHROUGH_LATENCY_MS, 256)
}

/// How many samples a ring buffer holds.
pub fn ring_capacity_samples(sample_rate_hz: u32) -> (r: usize)
    ensures
        r == samples_in(sample_rate_hz, PASSTHROUGH_RING_BUFFER_MS, 2048),
{
    sample_span(sample_rate_hz, PASSTHROUGH_RING_BUFFER_MS, 2048)
}

/// How many samples are filtered at a time.
pub fn chunk_samples(sample_rate_hz: u32) -> (r: usize)
    ensures
        r == samples_in(sample_rate_hz, BASIC_FILTER_CHUNK_MS, 512),
{
    sample_span(sample_rate_hz, BASIC_FILTER_CHUNK_MS, 512)
}

/// The greater of two sizes.
pub open spec fn greater(a: int, b: int) -> int {
    if a < b {
        b
    } else {
        a
    }
}

/// How many samples the buffer between the two devices of a link holds: the
/// usual number, but `factor` times the latency at least.
pub open spec fn link_capacity(sample_rate_hz: u32, factor: int) -> int {
    greater(
        samples_in(sample_rate_hz, PASSTHROUGH_RING_BUFFER_MS, 2048),
        samples_in(sample_rate_hz, PASSTHROUGH_LATENCY_MS, 256) * factor,
    )
}

/// How many samples the buffer between the two devices of a link holds.
pub fn link_capacity_samples(sample_rate_hz: u32, factor: usize) -> (r: usize)
    requires
        1 <= factor <= 6,
    ensures
        r == link_capacity(sample_rate_hz, factor as int),
        r > samples_in(sample_rate_hz, PASSTHROUGH_LATENCY_MS, 256),
{
    let latency = latency_samples(sample_rate_hz);
    let capacity = ring_capacity_samples(sample_rate_hz);
    assert(latency <= 0x0FFF_FFFF);
    assert(latency * factor <= 0x0FFF_FFFF * 6) by (nonlinear_arith)
        requires
            0 <= latency <= 0x0FFF_FFFF,
            1 <= factor <= 6,
    ;
    let wanted: usize = latency * factor;
    if capacity < wanted {
        wanted
    } else {
        capacity
    }
}

/// How many samples the buffer of a training recording holds: the usual number,
/// but a second at least.
pub fn recording_capacity_samples(sample_rate_hz: u32) -> (r: usize)
    ensures
        r == greater(
            samples_in(sample_rate_hz, PASSTHROUGH_RING_BUFFER_MS, 2048),
            sample_rate_hz as int,
        ),
{
    let capacity = ring_capacity_samples(sample_rate_hz);
    if capacity < sample_rate_hz as usize {
        sample_rate_hz as usize
    } else {
        capacity
    }
}

/// The silence at the start always fits into the buffer of a link, with room to
/// spare.
pub proof fn latency_fits_link(sample_rate_hz: u32, factor: int)
    requires
        1 <= factor,
    ensures
        samples_in(sample_rate_hz, PASSTHROUGH_LATENCY_MS, 256) < link_capacity(
            sample_rate_hz,
            factor,
        ),
{
}

/// A span holds as many whole samples as its milliseconds take, or the least number where that is
/// more; a higher rate never takes fewer.
pub proof fn spans_last_as_long_as_stated(rate: u32, other_rate: u32, millis: u32, least: int)
    ensures
        samples_in(rate, millis, least) >= least,
        samples_in(rate, millis, least) > least ==> samples_in(rate, millis, least) * 1000 <= rate
            * millis < (samples_in(rate, millis, least) + 1) * 1000,
        samples_in(rate, millis, least) == least ==> rate * millis < (least + 1) * 1000,
        rate <= other_rate ==> samples_in(rate, millis, least) <= samples_in(
            other_rate,
            millis,
            least,
        ),
{
    if rate <= other_rate {
        assert(rate * millis <= other_rate * millis) by (nonlinear_arith)
            requires
                0 <= rate <= other_rate,
                0 <= millis,
        ;
    }
}

/// Playback starts after 60 ms, a chunk lasts 120 ms and a buffer 400 ms, as far as they fit
/// whole samples and are not below their least sizes; a link holds `factor` times the latency.
pub proof fn links_hold_their_latency(rate: u32, factor: int)
    requires
        1 <= factor,
    ensures
        link_capacity(rate, factor) >= samples_in(rate, 60, 256) * factor,
        link_capacity(rate, factor) >= samples_in(rate, 400, 2048),
        link_capacity(rate, factor) == samples_in(rate, 60, 256) * factor || link_capacity(
            rate,
            factor,
        ) == samples_in(rate, 400, 2048),
        samples_in(rate, PASSTHROUGH_LATENCY_MS, 256) == samples_in(rate, 60, 256),
        samples_in(rate, BASIC_FILTER_CHUNK_MS, 512) == samples_in(rate, 120, 512),
{
}

/// The greater of two sizes is one of them and not below either.
pub proof fn greater_is_the_larger(a: int, b: int)
    ensures
        greater(a, b) >= a,
        greater(a, b) >= b,
        greater(a, b) == a || greater(a, b) == b,
{
}

} // verus!
