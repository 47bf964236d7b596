//! Network transport logic: what one iteration of the poll loop computes.
//!
//! The loop itself lives in the session runtime, which owns the two UDP
//! sockets and alternates one non-blocking receive attempt with one
//! non-blocking pop of the outbound queue, yielding briefly between
//! iterations. Everything it computes is here: an inbound payload is
//! decoded (a trailing odd byte discarded), counted, classified for the
//! audio heuristic and offered to the inbound queue — a full queue drops
//! the block silently; an outbound block is counted, serialized and split
//! into datagrams no larger than the safe chunk size, each carrying a
//! whole number of samples. Receive and send failures are never fatal to
//! the loop and no failure here ever blocks a caller.

use vstd::prelude::*;

verus! {

use vstd::arithmetic::div_mod::{lemma_fundamental_div_mod, lemma_hoist_over_denominator};
use crate::counters::{bump, Counters};
use crate::pcm::{decode_datagram, decode_wire, encode_block, encode_wire};
use crate::pipeline::{block_has_audio, has_audio_spec};
use crate::queue::BoundedQueue;

/// Largest datagram payload placed on the wire, in bytes: comfortably
/// below common path MTU, and a whole number of 16-bit samples.
pub const MAX_DATAGRAM_BYTES: usize = 1400;

/// The UDP port this side listens on for inbound audio.
pub const RECEIVE_PORT: u16 = 4810;

/// The UDP port on the peer that outbound audio is sent to.
pub const SEND_PORT: u16 = 4811;

/// The bytes `b` cut into chunks of `sz`, in order: every chunk but the
/// last is exactly `sz` bytes, the last holds the remainder.
pub open spec fn chunks_spec(b: Seq<u8>, sz: int) -> Seq<Seq<u8>>
    recommends
        sz >= 1,
    decreases b.len(),
{
    if sz < 1 || b.len() == 0 {
        Seq::empty()
    } else if b.len() <= sz {
        seq![b]
    } else {
        seq![b.take(sz)] + chunks_spec(b.skip(sz), sz)
    }
}

/// Chunking cuts without loss: the chunks concatenate back to the bytes.
pub proof fn lemma_chunks_concat(b: Seq<u8>, sz: int)
    requires
        sz >= 1,
    ensures
        concat_bytes(chunks_spec(b, sz)) == b,
    decreases b.len(),
{
    if b.len() == 0 {
        assert(concat_bytes(chunks_spec(b, sz)) =~= b);
    } else if b.len() <= sz {
        assert(chunks_spec(b, sz) =~~= seq![b]);
        assert(chunks_spec(b, sz)[0] == b);
        assert(chunks_spec(b, sz).drop_first() =~= Seq::<Seq<u8>>::empty());
        assert(concat_bytes(Seq::<Seq<u8>>::empty()) =~= Seq::<u8>::empty());
        assert(concat_bytes(chunks_spec(b, sz)) =~= b + Seq::<u8>::empty());
        assert(b + Seq::<u8>::empty() =~= b);
    } else {
        lemma_chunks_concat(b.skip(sz), sz);
        let rest = chunks_spec(b.skip(sz), sz);
        assert(chunks_spec(b, sz).drop_first() =~= rest);
        assert(chunks_spec(b, sz)[0] =~= b.take(sz));
        assert(concat_bytes(chunks_spec(b, sz)) =~= b.take(sz) + concat_bytes(rest));
        assert(b.take(sz) + b.skip(sz) =~= b);
    }
}

/// The concatenation of a sequence of byte chunks, in order.
pub open spec fn concat_bytes(chunks: Seq<Seq<u8>>) -> Seq<u8>
    decreases chunks.len(),
{
    if chunks.len() == 0 {
        Seq::empty()
    } else {
        chunks[0] + concat_bytes(chunks.drop_first())
    }
}

/// Every chunk is within the wire datagram invariant: non-empty, at most
/// `sz` bytes, and — when the bytes and `sz` hold whole samples — an even
/// length.
pub proof fn lemma_chunks_wire_invariant(b: Seq<u8>, sz: int)
    requires
        sz >= 1,
    ensures
        forall|i: int|
            0 <= i < chunks_spec(b, sz).len() ==> 1 <= #[trigger] chunks_spec(b, sz)[i].len()
                <= sz,
        (b.len() % 2 == 0 && sz % 2 == 0) ==> forall|i: int|
            0 <= i < chunks_spec(b, sz).len() ==> #[trigger] chunks_spec(b, sz)[i].len() % 2
                == 0,
    decreases b.len(),
{
    if b.len() > sz {
        lemma_chunks_wire_invariant(b.skip(sz), sz);
        let rest = chunks_spec(b.skip(sz), sz);
        assert forall|i: int| 0 <= i < chunks_spec(b, sz).len() implies 1 <= #[trigger] chunks_spec(
            b,
            sz,
        )[i].len() <= sz by {
            if i > 0 {
                assert(chunks_spec(b, sz)[i] == rest[i - 1]);
            }
        }
        if b.len() % 2 == 0 && sz % 2 == 0 {
            assert((b.len() - sz) % 2 == 0) by {
                vstd::arithmetic::div_mod::lemma_mod_sub_multiples_vanish(b.len() as int, 2);
                assert(sz % 2 == 0 ==> (b.len() - sz) % 2 == (b.len() - sz + sz) % 2) by {
                    vstd::arithmetic::div_mod::lemma_mod_adds(b.len() - sz, sz, 2);
                };
            };
            assert forall|i: int| 0 <= i < chunks_spec(b, sz).len() implies #[trigger] chunks_spec(
                b,
                sz,
            )[i].len() % 2 == 0 by {
                if i > 0 {
                    assert(chunks_spec(b, sz)[i] == rest[i - 1]);
                }
            }
        }
    }
}

/// The samples a receiver assembles from a sequence of datagrams: each
/// decoded on its own — it cannot see block boundaries — and the blocks
/// concatenated in arrival order.
pub open spec fn decode_chunks(chunks: Seq<Seq<u8>>) -> Seq<i16>
    decreases chunks.len(),
{
    if chunks.len() == 0 {
        Seq::empty()
    } else {
        decode_wire(chunks[0]) + decode_chunks(chunks.drop_first())
    }
}

/// Decoding distributes over concatenation at a sample boundary.
pub proof fn lemma_decode_append(a: Seq<u8>, b: Seq<u8>)
    requires
        a.len() % 2 == 0,
    ensures
        decode_wire(a + b) == decode_wire(a) + decode_wire(b),
{
    let ab = a + b;
    let ha = a.len() as int / 2;
    lemma_fundamental_div_mod(a.len() as int, 2);
    lemma_hoist_over_denominator(b.len() as int, ha, 2);
    assert(ab.len() as int / 2 == ha + b.len() as int / 2);
    assert forall|i: int| 0 <= i < ab.len() as int / 2 implies decode_wire(ab)[i] == (decode_wire(
        a,
    ) + decode_wire(b))[i] by {
        if i < ha {
            assert(ab[2 * i] == a[2 * i]);
            assert(ab[2 * i + 1] == a[2 * i + 1]);
        } else {
            let k = i - ha;
            assert(2 * i - a.len() == 2 * k);
            assert(ab[2 * i] == b[2 * k]);
            assert(ab[2 * i + 1] == b[2 * k + 1]);
        }
    }
    assert(decode_wire(ab) =~= decode_wire(a) + decode_wire(b));
}

/// Per-datagram decoding loses nothing: when the bytes and the chunk size
/// hold whole samples, decoding chunk by chunk assembles the same samples
/// as decoding the unsplit bytes.
pub proof fn lemma_decode_chunks(b: Seq<u8>, sz: int)
    requires
        sz >= 2,
        sz % 2 == 0,
        b.len() % 2 == 0,
    ensures
        decode_chunks(chunks_spec(b, sz)) == decode_wire(b),
    decreases b.len(),
{
    if b.len() == 0 {
        assert(decode_chunks(chunks_spec(b, sz)) =~= decode_wire(b));
    } else if b.len() <= sz {
        assert(chunks_spec(b, sz) =~~= seq![b]);
        assert(chunks_spec(b, sz)[0] == b);
        assert(chunks_spec(b, sz).drop_first() =~= Seq::<Seq<u8>>::empty());
        assert(decode_chunks(Seq::<Seq<u8>>::empty()) =~= Seq::<i16>::empty());
        assert(decode_chunks(chunks_spec(b, sz)) =~= decode_wire(b) + Seq::<i16>::empty());
        assert(decode_wire(b) + Seq::<i16>::empty() =~= decode_wire(b));
    } else {
        assert((b.len() - sz) % 2 == 0) by {
            vstd::arithmetic::div_mod::lemma_mod_sub_multiples_vanish(b.len() as int, 2);
            vstd::arithmetic::div_mod::lemma_mod_adds(b.len() - sz, sz, 2);
        };
        lemma_decode_chunks(b.skip(sz), sz);
        assert((b.take(sz)).len() % 2 == 0) by {
            vstd::arithmetic::div_mod::lemma_mod_is_zero(sz as nat, 2);
        };
        lemma_decode_append(b.take(sz), b.skip(sz));
        assert(chunks_spec(b, sz).drop_first() =~= chunks_spec(b.skip(sz), sz));
        assert(b.take(sz) + b.skip(sz) =~= b);
        assert(decode_chunks(chunks_spec(b, sz)) =~= decode_wire(b));
    }
}

/// The transport round trip: a PCM block is encoded, split into datagrams
/// and decoded datagram by datagram on the far side, and what the peer
/// assembles is the block's samples, exactly.
pub proof fn lemma_fragment_decode_roundtrip(s: Seq<i16>)
    ensures
        decode_chunks(chunks_spec(encode_wire(s), MAX_DATAGRAM_BYTES as int)) == s,
{
    let wire = encode_wire(s);
    assert(wire.len() % 2 == 0) by {
        vstd::arithmetic::div_mod::lemma_mod_multiples_basic(s.len() as int, 2);
    };
    lemma_decode_chunks(wire, MAX_DATAGRAM_BYTES as int);
    crate::pcm::lemma_decode_encode(s);
}

/// Serialize one PCM block and split it into wire datagrams of at most
/// `MAX_DATAGRAM_BYTES`, each carrying a whole number of samples.
pub fn fragment_block(samples: &Vec<i16>) -> (datagrams: Vec<Vec<u8>>)
    requires
        samples@.len() * 2 <= usize::MAX,
    ensures
        datagrams@.map_values(|d: Vec<u8>| d@) == chunks_spec(
            encode_wire(samples@),
            MAX_DATAGRAM_BYTES as int,
        ),
        concat_bytes(datagrams@.map_values(|d: Vec<u8>| d@)) == encode_wire(samples@),
{
    let bytes: Vec<u8> = encode_block(samples);
    let total: usize = bytes.len();
    let mut datagrams: Vec<Vec<u8>> = Vec::new();
    let mut start: usize = 0;
    proof {
        assert(bytes@.skip(0) =~= bytes@);
        assert(datagrams@.map_values(|d: Vec<u8>| d@) =~= Seq::<Seq<u8>>::empty());
        assert(Seq::<Seq<u8>>::empty() + chunks_spec(bytes@, MAX_DATAGRAM_BYTES as int)
            =~= chunks_spec(bytes@, MAX_DATAGRAM_BYTES as int));
    }
    while start < total
        invariant
            start <= total,
            total == bytes@.len(),
            bytes@ == encode_wire(samples@),
            chunks_spec(bytes@, MAX_DATAGRAM_BYTES as int) =~= datagrams@.map_values(
                |d: Vec<u8>| d@,
            ) + chunks_spec(bytes@.skip(start as int), MAX_DATAGRAM_BYTES as int),
        decreases total - start,
    {
        let remaining: usize = total - start;
        let take: usize = if remaining < MAX_DATAGRAM_BYTES {
            remaining
        } else {
            MAX_DATAGRAM_BYTES
        };
        let mut chunk: Vec<u8> = Vec::new();
        let mut j: usize = 0;
        while j < take
            invariant
                j <= take,
                start + take <= total,
                total == bytes@.len(),
                chunk@ =~= bytes@.subrange(start as int, start as int + j as int),
            decreases take - j,
        {
            chunk.push(bytes[start + j]);
            j = j + 1;
        }
        let ghost prev = datagrams@;
        datagrams.push(chunk);
        proof {
            let sz = MAX_DATAGRAM_BYTES as int;
            let tail = bytes@.skip(start as int);
            assert(chunk@ =~= tail.take(take as int));
            assert(datagrams@.map_values(|d: Vec<u8>| d@) =~~= prev.map_values(|d: Vec<u8>| d@)
                + seq![chunk@]);
            if take < remaining {
                assert(tail.skip(sz) =~= bytes@.skip(start as int + take as int));
                assert(chunks_spec(tail, sz) =~~= seq![chunk@] + chunks_spec(
                    bytes@.skip(start as int + take as int),
                    sz,
                ));
            } else {
                assert(chunk@ =~= tail);
                assert(chunks_spec(tail, sz) =~~= seq![chunk@]);
                assert(bytes@.skip(start as int + take as int) =~= Seq::<u8>::empty());
                assert(chunks_spec(bytes@.skip(start as int + take as int), sz)
                    =~= Seq::<Seq<u8>>::empty());
            }
            assert(chunks_spec(bytes@, sz) =~~= datagrams@.map_values(|d: Vec<u8>| d@)
                + chunks_spec(bytes@.skip(start as int + take as int), sz));
        }
        start = start + take;
    }
    proof {
        assert(bytes@.skip(total as int) =~= Seq::<u8>::empty());
        assert(datagrams@.map_values(|d: Vec<u8>| d@) =~~= chunks_spec(
            bytes@,
            MAX_DATAGRAM_BYTES as int,
        ));
        lemma_chunks_concat(bytes@, MAX_DATAGRAM_BYTES as int);
    }
    datagrams
}

/// What one successful non-blocking receive does with its payload: count
/// the datagram, decode its samples, count detected audio, and offer the
/// block to the inbound queue — when the queue is full the block is
/// dropped silently and the caller is not blocked. Returns how many
/// samples the payload decoded to.
pub fn ingest_datagram(
    payload: &[u8],
    inbound: &mut BoundedQueue<Vec<i16>>,
    counters: &mut Counters,
) -> (n_samples: usize)
    requires
        old(inbound).wf(),
    ensures
        final(inbound).wf(),
        final(inbound).spec_capacity() == old(inbound).spec_capacity(),
        n_samples == payload@.len() / 2,
        final(counters).packets_recv == bump(old(counters).packets_recv),
        final(counters).packets_recv_with_audio == (if has_audio_spec(decode_wire(payload@)) {
            bump(old(counters).packets_recv_with_audio)
        } else {
            old(counters).packets_recv_with_audio
        }),
        final(counters).packets_sent == old(counters).packets_sent,
        final(counters).packets_sent_with_audio == old(counters).packets_sent_with_audio,
        final(counters).audio_callbacks == old(counters).audio_callbacks,
        old(inbound)@.len() < old(inbound).spec_capacity() ==> final(inbound)@.map_values(
            |b: Vec<i16>| b@,
        ) == old(inbound)@.map_values(|b: Vec<i16>| b@).push(decode_wire(payload@)),
        old(inbound)@.len() >= old(inbound).spec_capacity() ==> final(inbound)@ == old(inbound)@,
{
    counters.record_packet_recv();
    let samples: Vec<i16> = decode_datagram(payload);
    let n: usize = samples.len();
    if block_has_audio(&samples) {
        counters.record_recv_with_audio();
    }
    let ghost decoded = samples@;
    let _accepted: bool = inbound.try_push(samples);
    proof {
        if old(inbound)@.len() < old(inbound).spec_capacity() {
            assert(inbound@.map_values(|b: Vec<i16>| b@) =~~= old(inbound)@.map_values(
                |b: Vec<i16>| b@,
            ).push(decoded));
        }
    }
    n
}

/// What one iteration of the loop does on the send side: one non-blocking
/// pop of the outbound queue; when a block was waiting, count detected
/// audio and fragment the block into wire datagrams for the runtime to
/// send. An empty queue leaves everything unchanged — the loop never
/// waits for audio. The sent-datagram counter itself advances only as the
/// runtime reports each successful send.
pub fn outbound_step(outbound: &mut BoundedQueue<Vec<i16>>, counters: &mut Counters) -> (datagrams:
    Vec<Vec<u8>>)
    requires
        old(outbound).wf(),
        forall|i: int|
            0 <= i < old(outbound)@.len() ==> #[trigger] old(outbound)@[i]@.len() * 2
                <= usize::MAX,
    ensures
        final(outbound).wf(),
        final(outbound).spec_capacity() == old(outbound).spec_capacity(),
        final(counters).packets_sent == old(counters).packets_sent,
        final(counters).packets_recv == old(counters).packets_recv,
        final(counters).packets_recv_with_audio == old(counters).packets_recv_with_audio,
        final(counters).audio_callbacks == old(counters).audio_callbacks,
        old(outbound)@.len() == 0 ==> {
            &&& datagrams@.len() == 0
            &&& final(outbound)@ == old(outbound)@
            &&& *final(counters) == *old(counters)
        },
        old(outbound)@.len() > 0 ==> {
            &&& final(outbound)@ == old(outbound)@.skip(1)
            &&& datagrams@.map_values(|d: Vec<u8>| d@) == chunks_spec(
                encode_wire(old(outbound)@[0]@),
                MAX_DATAGRAM_BYTES as int,
            )
            &&& final(counters).packets_sent_with_audio == (if has_audio_spec(
                old(outbound)@[0]@,
            ) {
                bump(old(counters).packets_sent_with_audio)
            } else {
                old(counters).packets_sent_with_audio
            })
        },
{
    match outbound.try_pop() {
        Some(block) => {
            if block_has_audio(&block) {
                counters.record_sent_with_audio();
            }
            fragment_block(&block)
        },
        None => Vec::new(),
    }
}

} // verus!
