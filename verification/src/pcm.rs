//! Sample format and wire codec.
//!
//! A raw sample is a fixed-point amplitude scaled by 32768 (`FIXED_ONE`):
//! the nominal amplitude range [-1, +1] is the raw range [-32768, +32768].
//! Quantization clamps a raw sample to that range and scales it by
//! 32767/32768, truncating toward zero, so both endpoints map to the
//! symmetric 16-bit extremes -32767 and +32767.
//!
//! On the wire a PCM block is its samples as consecutive little-endian byte
//! pairs: no header, no sequence number, no length prefix. A decoder reads
//! as many whole pairs as the payload holds and discards a trailing odd
//! byte.

use vstd::prelude::*;

verus! {

use vstd::arithmetic::div_mod::{
    lemma_div_is_ordered,
    lemma_div_multiples_vanish,
    lemma_div_pos_is_pos,
    lemma_fundamental_div_mod,
};
use vstd::arithmetic::mul::lemma_mul_inequality;
use vstd::bytes::{
    lemma_auto_spec_u16_to_from_le_bytes,
    spec_u16_from_le_bytes,
    spec_u16_to_le_bytes,
    u16_from_le_bytes,
    u16_to_le_bytes,
};
use vstd::slice::slice_subrange;

/// Sample rate, in hertz, of the mono PCM stream placed on the wire.
pub const TARGET_SAMPLE_RATE: u32 = 48000;

/// Fixed-point scale of raw samples: this raw value stands for amplitude 1.
pub const FIXED_ONE: i32 = 32768;

/// Largest magnitude of a quantized sample (symmetric clipping).
pub const QUANT_MAX: i16 = 32767;

/// A raw sample clamped to the nominal amplitude range [-1, +1].
pub open spec fn clamp_fixed(r: int) -> int {
    if r < -32768 {
        -32768
    } else if r > 32768 {
        32768
    } else {
        r
    }
}

/// Quantization of a raw sample: clamp, scale by 32767/32768, truncate
/// toward zero.
pub open spec fn quantize_spec(r: int) -> int {
    let c = clamp_fixed(r);
    if c >= 0 {
        (c * 32767) / 32768
    } else {
        -((-c * 32767) / 32768)
    }
}

/// Quantize one raw fixed-point sample to a 16-bit PCM sample.
pub fn quantize(r: i32) -> (q: i16)
    ensures
        q == quantize_spec(r as int),
        -32767 <= q <= 32767,
{
    let c: i32 = if r < -32768 {
        -32768
    } else if r > 32768 {
        32768
    } else {
        r
    };
    if c >= 0 {
        let scaled: u32 = (c as u32) * 32767;
        proof {
            lemma_div_is_ordered(scaled as int, (32768 * 32767) as int, 32768int);
            lemma_div_multiples_vanish(32767, 32768);
            lemma_div_pos_is_pos(scaled as int, 32768);
        }
        (scaled / 32768) as i16
    } else {
        let m: u32 = ((-c) as u32) * 32767;
        proof {
            lemma_div_is_ordered(m as int, (32768 * 32767) as int, 32768int);
            lemma_div_multiples_vanish(32767, 32768);
            lemma_div_pos_is_pos(m as int, 32768);
        }
        -((m / 32768) as i32) as i16
    }
}

/// Quantization is monotonic: a larger raw amplitude never quantizes below
/// a smaller one.
pub proof fn lemma_quantize_monotonic(a: int, b: int)
    requires
        a <= b,
    ensures
        quantize_spec(a) <= quantize_spec(b),
{
    let ca = clamp_fixed(a);
    let cb = clamp_fixed(b);
    assert(ca <= cb);
    if ca >= 0 {
        lemma_mul_inequality(ca, cb, 32767);
        lemma_div_is_ordered(ca * 32767, cb * 32767, 32768);
    } else if cb < 0 {
        lemma_mul_inequality(-cb, -ca, 32767);
        lemma_div_is_ordered(-cb * 32767, -ca * 32767, 32768);
    } else {
        lemma_div_pos_is_pos(-ca * 32767, 32768);
        lemma_div_pos_is_pos(cb * 32767, 32768);
    }
}

/// The clamp boundaries quantize to the symmetric extremes: amplitude -1
/// maps to -32767 and amplitude +1 maps to +32767, never to -32768.
pub proof fn lemma_quantize_boundaries()
    ensures
        quantize_spec(-32768) == -32767,
        quantize_spec(32768) == 32767,
        forall|r: int| r <= -32768 ==> quantize_spec(r) == -32767,
        forall|r: int| r >= 32768 ==> quantize_spec(r) == 32767,
{
    lemma_div_multiples_vanish(32767, 32768);
    assert(32768 * 32767 == 32767 * 32768);
}

/// The 16-bit two's-complement bit pattern of a sample, as an unsigned
/// value.
pub open spec fn sample_bits(s: i16) -> u16 {
    (if s < 0 {
        s + 0x10000
    } else {
        s as int
    }) as u16
}

/// The sample whose 16-bit two's-complement bit pattern is `u`.
pub open spec fn bits_sample(u: u16) -> i16 {
    (if u >= 0x8000 {
        u - 0x10000
    } else {
        u as int
    }) as i16
}

pub proof fn lemma_sample_bits_roundtrip(s: i16)
    ensures
        bits_sample(sample_bits(s)) == s,
{
}

pub proof fn lemma_bits_sample_roundtrip(u: u16)
    ensures
        sample_bits(bits_sample(u)) == u,
{
}

/// The two little-endian bytes of one sample.
pub open spec fn sample_to_le_bytes(s: i16) -> Seq<u8> {
    spec_u16_to_le_bytes(sample_bits(s))
}

/// The sample read from one little-endian byte pair.
pub open spec fn decode_pair(b0: u8, b1: u8) -> i16 {
    bits_sample(spec_u16_from_le_bytes(seq![b0, b1]))
}

/// The samples decoded from a wire payload: one per whole little-endian
/// byte pair, a trailing odd byte discarded.
pub open spec fn decode_wire(b: Seq<u8>) -> Seq<i16> {
    Seq::new((b.len() / 2) as nat, |i: int| decode_pair(b[2 * i], b[2 * i + 1]))
}

/// The wire encoding of a block of samples: consecutive little-endian byte
/// pairs.
pub open spec fn encode_wire(s: Seq<i16>) -> Seq<u8> {
    Seq::new((s.len() * 2) as nat, |i: int| sample_to_le_bytes(s[i / 2])[i % 2])
}

/// Convert one sample to its bit pattern.
fn sample_to_bits_exec(s: i16) -> (u: u16)
    ensures
        u == sample_bits(s),
{
    let w: i32 = s as i32;
    let v: i32 = if w < 0 {
        w + 65536
    } else {
        w
    };
    v as u16
}

/// Convert one bit pattern back to a sample.
fn bits_to_sample_exec(u: u16) -> (s: i16)
    ensures
        s == bits_sample(u),
{
    let w: i32 = u as i32;
    let v: i32 = if w >= 32768 {
        w - 65536
    } else {
        w
    };
    v as i16
}

/// Serialize a PCM block to its wire bytes.
pub fn encode_block(samples: &Vec<i16>) -> (out: Vec<u8>)
    requires
        samples@.len() * 2 <= usize::MAX,
    ensures
        out@ == encode_wire(samples@),
{
    let n: usize = samples.len();
    let mut out: Vec<u8> = Vec::new();
    let mut i: usize = 0;
    while i < n
        invariant
            i <= n,
            n == samples@.len(),
            n * 2 <= usize::MAX,
            out@.len() == i * 2,
            forall|j: int| 0 <= j < out@.len() ==> out@[j] == encode_wire(samples@)[j],
        decreases n - i,
    {
        let bits: u16 = sample_to_bits_exec(samples[i]);
        let pair: Vec<u8> = u16_to_le_bytes(bits);
        out.push(pair[0]);
        out.push(pair[1]);
        proof {
            assert((2 * i as int) / 2 == i as int && (2 * i as int) % 2 == 0);
            assert((2 * i as int + 1) / 2 == i as int && (2 * i as int + 1) % 2 == 1);
        }
        i = i + 1;
    }
    proof {
        assert(out@ =~= encode_wire(samples@));
    }
    out
}

/// Decode a wire payload into samples; a trailing odd byte is discarded.
pub fn decode_datagram(bytes: &[u8]) -> (out: Vec<i16>)
    ensures
        out@ == decode_wire(bytes@),
        out@.len() == bytes@.len() / 2,
{
    let n: usize = bytes.len() / 2;
    let mut out: Vec<i16> = Vec::new();
    let mut k: usize = 0;
    while k < n
        invariant
            k <= n,
            n == bytes@.len() / 2,
            2 * n <= usize::MAX,
            out@.len() == k,
            forall|j: int| 0 <= j < k ==> out@[j] == decode_wire(bytes@)[j],
        decreases n - k,
    {
        let pair: &[u8] = slice_subrange(bytes, 2 * k, 2 * k + 2);
        let bits: u16 = u16_from_le_bytes(pair);
        let s: i16 = bits_to_sample_exec(bits);
        proof {
            assert(pair@ =~= seq![bytes@[2 * k as int], bytes@[2 * k as int + 1]]);
        }
        out.push(s);
        k = k + 1;
    }
    proof {
        assert(out@ =~= decode_wire(bytes@));
    }
    out
}

/// Decoding a block's wire encoding yields the block's samples unchanged.
pub proof fn lemma_decode_encode(s: Seq<i16>)
    ensures
        decode_wire(encode_wire(s)) == s,
{
    lemma_auto_spec_u16_to_from_le_bytes();
    let e = encode_wire(s);
    assert(e.len() == s.len() * 2);
    assert forall|i: int| 0 <= i < s.len() implies decode_wire(e)[i] == s[i] by {
        assert((2 * i) / 2 == i && (2 * i) % 2 == 0);
        assert((2 * i + 1) / 2 == i && (2 * i + 1) % 2 == 1);
        assert(seq![e[2 * i], e[2 * i + 1]] =~= spec_u16_to_le_bytes(sample_bits(s[i])));
        lemma_sample_bits_roundtrip(s[i]);
    }
    assert(decode_wire(encode_wire(s)) =~= s);
}

/// Re-encoding the samples decoded from a payload reproduces the payload,
/// except for a dropped trailing byte when the payload length is odd.
pub proof fn lemma_encode_decode(b: Seq<u8>)
    ensures
        encode_wire(decode_wire(b)) == b.take(2 * (b.len() as int / 2)),
{
    lemma_auto_spec_u16_to_from_le_bytes();
    let d = decode_wire(b);
    let e = encode_wire(d);
    assert(e.len() == 2 * (b.len() as int / 2));
    assert forall|i: int| 0 <= i < e.len() implies e[i] == b[i] by {
        let k = i / 2;
        lemma_fundamental_div_mod(i, 2);
        assert(0 <= k < d.len());
        let pair = seq![b[2 * k], b[2 * k + 1]];
        lemma_bits_sample_roundtrip(spec_u16_from_le_bytes(pair));
        assert(sample_to_le_bytes(d[k]) =~= pair);
        assert(e[i] == pair[i % 2]);
        assert(i == 2 * k + i % 2);
    }
    assert(e =~= b.take(2 * (b.len() as int / 2)));
}

} // verus!
