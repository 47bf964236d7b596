//! Capture pipeline: raw interleaved fixed-point frames to 16-bit mono PCM.
//!
//! Three steps, in order: downmix (a stereo batch is averaged pairwise into
//! mono, any other channel count passes through unchanged), downsample
//! (plain decimation by `floor(native_rate / target_rate)`, no anti-aliasing
//! filter), and quantization of each surviving sample. The amplitude
//! heuristic that classifies a block as carrying audio lives here too; it
//! feeds counters only, never control flow.

use vstd::prelude::*;

verus! {

use vstd::arithmetic::div_mod::{
    lemma_basic_div,
    lemma_div_by_self,
    lemma_div_is_ordered,
    lemma_div_nonincreasing,
    lemma_fundamental_div_mod,
    lemma_hoist_over_denominator,
};
use vstd::arithmetic::mul::lemma_mul_inequality;
use crate::counters::{bump, Counters};
use crate::pcm::{quantize, quantize_spec};
use crate::queue::BoundedQueue;

/// Sample magnitudes above this count as detected audio (out of 32767).
pub const AUDIO_THRESHOLD: i16 = 100;

/// The average of two raw samples, truncated toward zero.
pub open spec fn avg_toward_zero(a: int, b: int) -> int {
    let s = a + b;
    if s >= 0 {
        s / 2
    } else {
        -((-s) / 2)
    }
}

/// Downmix an interleaved batch to mono: a stereo batch is averaged
/// pairwise (a dangling last sample is averaged with silence); any other
/// channel count passes through unchanged.
pub open spec fn downmix_spec(s: Seq<i32>, channels: u16) -> Seq<i32> {
    if channels == 2 {
        Seq::new(
            ((s.len() + 1) / 2) as nat,
            |i: int|
                {
                    let a = s[2 * i] as int;
                    let b = if 2 * i + 1 < s.len() {
                        s[2 * i + 1] as int
                    } else {
                        0
                    };
                    avg_toward_zero(a, b) as i32
                },
        )
    } else {
        s
    }
}

/// Ceiling of `l / r`.
pub open spec fn div_ceil(l: int, r: int) -> int {
    (l + r - 1) / r
}

/// Keep every `r`-th sample, starting at position 0: the result has
/// exactly `div_ceil(len, r)` samples, the `i`-th taken at position `i * r`.
pub open spec fn decimate_spec(s: Seq<i32>, r: int) -> Seq<i32> {
    Seq::new(div_ceil(s.len() as int, r) as nat, |i: int| s[i * r])
}

/// The decimation ratio for a capture rate and a target rate: the floor of
/// their quotient when the capture rate is higher, and 1 otherwise.
pub open spec fn ratio_spec(native_rate: u32, target_rate: u32) -> int {
    if native_rate > target_rate {
        native_rate as int / target_rate as int
    } else {
        1
    }
}

/// Whether any sample's magnitude exceeds the audio threshold.
pub open spec fn has_audio_spec(s: Seq<i16>) -> bool {
    exists|i: int| 0 <= i < s.len() && (s[i] > AUDIO_THRESHOLD || s[i] < -AUDIO_THRESHOLD)
}

/// What the whole pipeline makes of one captured batch.
pub open spec fn pipeline_spec(s: Seq<i32>, channels: u16, native_rate: u32, target_rate: u32) -> Seq<
    i16,
> {
    decimate_spec(downmix_spec(s, channels), ratio_spec(native_rate, target_rate)).map_values(
        |r: i32| quantize_spec(r as int) as i16,
    )
}

/// Average two raw samples, truncating toward zero.
fn avg_exec(a: i32, b: i32) -> (r: i32)
    ensures
        r == avg_toward_zero(a as int, b as int),
{
    let s: i64 = a as i64 + b as i64;
    if s >= 0 {
        proof {
            lemma_div_is_ordered(s as int, (u32::MAX as int) * 2, 2);
        }
        ((s as u64) / 2) as i32
    } else {
        proof {
            lemma_div_is_ordered((-s) as int, 0x1_0000_0000, 2);
        }
        (-((((-s) as u64) / 2) as i64)) as i32
    }
}

/// Downmix one interleaved batch to mono.
pub fn downmix(data: &Vec<i32>, channels: u16) -> (out: Vec<i32>)
    ensures
        out@ == downmix_spec(data@, channels),
{
    let n: usize = data.len();
    let mut out: Vec<i32> = Vec::new();
    if channels == 2 {
        proof {
            if n > 0 {
                lemma_div_nonincreasing(n as int - 1, 2);
                lemma_hoist_over_denominator(n as int - 1, 1, 2);
            }
        }
        let out_len: usize = if n == 0 {
            0
        } else {
            (n - 1) / 2 + 1
        };
        let mut m: usize = 0;
        while m < out_len
            invariant
                m <= out_len,
                n == data@.len(),
                out_len == (n + 1) as int / 2,
                n > 0 ==> out_len == (n - 1) as int / 2 + 1,
                out@.len() == m,
                forall|j: int| 0 <= j < m ==> out@[j] == downmix_spec(data@, 2u16)[j],
            decreases out_len - m,
        {
            proof {
                lemma_mul_inequality(m as int, (n - 1) as int / 2, 2);
                lemma_fundamental_div_mod((n - 1) as int, 2);
            }
            let a: i32 = data[2 * m];
            let b: i32 = if 2 * m + 1 < n {
                data[2 * m + 1]
            } else {
                0
            };
            out.push(avg_exec(a, b));
            m = m + 1;
        }
        proof {
            assert(out@ =~= downmix_spec(data@, 2u16));
        }
    } else {
        let mut i: usize = 0;
        while i < n
            invariant
                i <= n,
                n == data@.len(),
                out@ =~= data@.take(i as int),
            decreases n - i,
        {
            out.push(data[i]);
            i = i + 1;
        }
        proof {
            assert(out@ =~= data@);
        }
    }
    out
}

/// The decimation ratio for a capture rate and a target rate.
pub fn downsample_ratio(native_rate: u32, target_rate: u32) -> (r: u32)
    requires
        target_rate >= 1,
    ensures
        r == ratio_spec(native_rate, target_rate),
        r >= 1,
{
    if native_rate > target_rate {
        proof {
            lemma_div_by_self(target_rate as int);
            lemma_div_is_ordered(target_rate as int, native_rate as int, target_rate as int);
        }
        native_rate / target_rate
    } else {
        1
    }
}

/// Keep every `ratio`-th sample of a mono batch.
pub fn downsample(data: &Vec<i32>, ratio: usize) -> (out: Vec<i32>)
    requires
        ratio >= 1,
    ensures
        out@ == decimate_spec(data@, ratio as int),
        out@.len() == div_ceil(data@.len() as int, ratio as int),
{
    let n: usize = data.len();
    proof {
        if n > 0 {
            lemma_div_nonincreasing(n as int - 1, ratio as int);
            lemma_hoist_over_denominator(n as int - 1, 1, ratio as nat);
        } else {
            lemma_basic_div(ratio as int - 1, ratio as int);
        }
    }
    let out_len: usize = if n == 0 {
        0
    } else {
        (n - 1) / ratio + 1
    };
    let mut out: Vec<i32> = Vec::new();
    let mut k: usize = 0;
    while k < out_len
        invariant
            k <= out_len,
            n == data@.len(),
            ratio >= 1,
            out_len == div_ceil(n as int, ratio as int),
            n > 0 ==> out_len == (n - 1) as int / ratio as int + 1,
            n == 0 ==> out_len == 0,
            out@.len() == k,
            forall|j: int| 0 <= j < k ==> out@[j] == data@[j * ratio],
        decreases out_len - k,
    {
        proof {
            lemma_mul_inequality(k as int, (n - 1) as int / ratio as int, ratio as int);
            lemma_fundamental_div_mod((n - 1) as int, ratio as int);
        }
        let idx: usize = k * ratio;
        out.push(data[idx]);
        k = k + 1;
    }
    proof {
        assert(out@ =~= decimate_spec(data@, ratio as int));
    }
    out
}

/// Whether any sample in a PCM block exceeds the audio threshold. Purely
/// diagnostic: callers feed it to counters, never to control flow.
pub fn block_has_audio(samples: &Vec<i16>) -> (r: bool)
    ensures
        r == has_audio_spec(samples@),
{
    let n: usize = samples.len();
    let mut i: usize = 0;
    while i < n
        invariant
            i <= n,
            n == samples@.len(),
            forall|j: int|
                0 <= j < i ==> !(samples@[j] > AUDIO_THRESHOLD || samples@[j] < -AUDIO_THRESHOLD),
        decreases n - i,
    {
        let s: i16 = samples[i];
        if s > AUDIO_THRESHOLD || s < 0 - AUDIO_THRESHOLD {
            proof {
                assert(samples@[i as int] > AUDIO_THRESHOLD || samples@[i as int]
                    < -AUDIO_THRESHOLD);
            }
            return true;
        }
        i = i + 1;
    }
    false
}

/// Run the whole capture pipeline on one interleaved batch: downmix,
/// decimate, quantize.
pub fn process_batch(data: &Vec<i32>, channels: u16, native_rate: u32, target_rate: u32) -> (out:
    Vec<i16>)
    requires
        target_rate >= 1,
    ensures
        out@ == pipeline_spec(data@, channels, native_rate, target_rate),
{
    let mono: Vec<i32> = downmix(data, channels);
    let ratio: u32 = downsample_ratio(native_rate, target_rate);
    let kept: Vec<i32> = downsample(&mono, ratio as usize);
    let n: usize = kept.len();
    let mut out: Vec<i16> = Vec::new();
    let mut i: usize = 0;
    while i < n
        invariant
            i <= n,
            n == kept@.len(),
            out@.len() == i,
            forall|j: int|
                0 <= j < i ==> out@[j] == quantize_spec(kept@[j] as int) as i16,
        decreases n - i,
    {
        out.push(quantize(kept[i]));
        i = i + 1;
    }
    proof {
        assert(out@ =~= kept@.map_values(|r: i32| quantize_spec(r as int) as i16));
    }
    out
}

/// The whole capture callback: count the invocation, run the pipeline on
/// the batch, and offer the resulting PCM block to the outbound queue with
/// a non-blocking push — when the queue is full the block is dropped
/// silently, because this callback runs on the audio subsystem's real-time
/// deadline and must never block or sleep. Returns the block's length.
pub fn capture_step(
    data: &Vec<i32>,
    channels: u16,
    native_rate: u32,
    target_rate: u32,
    outbound: &mut BoundedQueue<Vec<i16>>,
    counters: &mut Counters,
) -> (n_samples: usize)
    requires
        target_rate >= 1,
        old(outbound).wf(),
    ensures
        final(outbound).wf(),
        final(outbound).spec_capacity() == old(outbound).spec_capacity(),
        n_samples == pipeline_spec(data@, channels, native_rate, target_rate).len(),
        final(counters).audio_callbacks == bump(old(counters).audio_callbacks),
        final(counters).packets_sent == old(counters).packets_sent,
        final(counters).packets_recv == old(counters).packets_recv,
        final(counters).packets_sent_with_audio == old(counters).packets_sent_with_audio,
        final(counters).packets_recv_with_audio == old(counters).packets_recv_with_audio,
        old(outbound)@.len() < old(outbound).spec_capacity() ==> final(outbound)@.map_values(
            |b: Vec<i16>| b@,
        ) == old(outbound)@.map_values(|b: Vec<i16>| b@).push(
            pipeline_spec(data@, channels, native_rate, target_rate),
        ),
        old(outbound)@.len() >= old(outbound).spec_capacity() ==> final(outbound)@ == old(
            outbound,
        )@,
{
    counters.record_audio_callback();
    let block: Vec<i16> = process_batch(data, channels, native_rate, target_rate);
    let n: usize = block.len();
    let ghost produced = block@;
    let _accepted: bool = outbound.try_push(block);
    proof {
        if old(outbound)@.len() < old(outbound).spec_capacity() {
            assert(outbound@.map_values(|b: Vec<i16>| b@) =~~= old(outbound)@.map_values(
                |b: Vec<i16>| b@,
            ).push(produced));
        }
    }
    n
}

} // verus!
