//! Session entry points: what the real-time threads call.
//!
//! A session runs three execution contexts — the capture callback, the
//! output callback and the network poll loop — that communicate only
//! through non-blocking bounded channels. The runtime owns the channel
//! endpoints, the sockets and the threads; the functions here are what its
//! contexts execute: each takes the values of one event (a captured batch,
//! a received payload, a poll tick), updates the counters exactly, and
//! hands blocks to a channel with a non-blocking push whose failure means
//! a silent drop. The channels are crossbeam's; their concurrent drain by
//! another thread means nothing can be promised about a push or pop's
//! outcome, so every guarantee here holds whatever the channel did.

use vstd::prelude::*;

verus! {

use vstd::arithmetic::div_mod::lemma_mod_multiples_basic;
use crate::counters::{bump, Counters};
use crate::net::{
    chunks_spec,
    decode_chunks,
    fragment_block,
    lemma_chunks_wire_invariant,
    lemma_fragment_decode_roundtrip,
    MAX_DATAGRAM_BYTES,
};
use crate::pcm::{decode_datagram, decode_wire, encode_wire};
use crate::pipeline::{block_has_audio, has_audio_spec, pipeline_spec, process_batch};

#[verifier::external_type_specification]
#[verifier::external_body]
#[verifier::reject_recursive_types(T)]
pub struct ExSender<T>(crossbeam_channel::Sender<T>);

#[verifier::external_type_specification]
#[verifier::external_body]
#[verifier::reject_recursive_types(T)]
pub struct ExReceiver<T>(crossbeam_channel::Receiver<T>);

/// Relies on crossbeam_channel::Sender::try_send: it delivers the message
/// immediately or returns an error (full or disconnected channel) without
/// ever blocking. Another thread drains the channel concurrently, so
/// nothing is promised of the outcome.
#[verifier::external_body]
fn try_send_block(tx: &crossbeam_channel::Sender<Vec<i16>>, block: Vec<i16>) -> (delivered: bool) {
    tx.try_send(block).is_ok()
}

/// Relies on crossbeam_channel::Receiver::try_recv: it returns a waiting
/// message or an error (empty or disconnected channel) without ever
/// blocking. Another thread fills the channel concurrently, so nothing is
/// promised of the outcome.
#[verifier::external_body]
fn try_recv_block(rx: &crossbeam_channel::Receiver<Vec<i16>>) -> (block: Option<Vec<i16>>) {
    rx.try_recv().ok()
}

/// The capture callback: count the invocation, run the capture pipeline
/// on the batch, and offer the PCM block to the outbound channel without
/// blocking — a full channel drops the block, keeping the audio
/// subsystem's real-time deadline safe. Returns the block's length.
pub fn capture_callback(
    data: &Vec<i32>,
    channels: u16,
    native_rate: u32,
    target_rate: u32,
    tx: &crossbeam_channel::Sender<Vec<i16>>,
    counters: &mut Counters,
) -> (n_samples: usize)
    requires
        target_rate >= 1,
    ensures
        n_samples == pipeline_spec(data@, channels, native_rate, target_rate).len(),
        final(counters).audio_callbacks == bump(old(counters).audio_callbacks),
        final(counters).packets_sent == old(counters).packets_sent,
        final(counters).packets_recv == old(counters).packets_recv,
        final(counters).packets_sent_with_audio == old(counters).packets_sent_with_audio,
        final(counters).packets_recv_with_audio == old(counters).packets_recv_with_audio,
{
    counters.record_audio_callback();
    let block: Vec<i16> = process_batch(data, channels, native_rate, target_rate);
    let n: usize = block.len();
    let _delivered: bool = try_send_block(tx, block);
    n
}

/// The receive side of one poll-loop iteration, given the payload of one
/// datagram: count it, decode its samples (discarding a trailing odd
/// byte), count detected audio, and offer the block to the inbound channel
/// without blocking — a full channel drops it silently. Returns how many
/// samples the payload decoded to.
pub fn handle_datagram(
    payload: &[u8],
    tx: &crossbeam_channel::Sender<Vec<i16>>,
    counters: &mut Counters,
) -> (n_samples: usize)
    ensures
        n_samples == payload@.len() / 2,
        final(counters).packets_recv == bump(old(counters).packets_recv),
        final(counters).packets_recv_with_audio == (if has_audio_spec(decode_wire(payload@)) {
            bump(old(counters).packets_recv_with_audio)
        } else {
            old(counters).packets_recv_with_audio
        }),
        final(counters).packets_sent == old(counters).packets_sent,
        final(counters).packets_sent_with_audio == old(counters).packets_sent_with_audio,
        final(counters).audio_callbacks == old(counters).audio_callbacks,
{
    counters.record_packet_recv();
    let samples: Vec<i16> = decode_datagram(payload);
    let n: usize = samples.len();
    if block_has_audio(&samples) {
        counters.record_recv_with_audio();
    }
    let _delivered: bool = try_send_block(tx, samples);
    n
}

/// The send side of one poll-loop iteration: one non-blocking pop of the
/// outbound channel; when a block was waiting, count detected audio and
/// fragment the block into wire datagrams for the runtime to send to the
/// peer. Whatever the channel held, every returned datagram satisfies the
/// wire invariant: non-empty, at most the safe chunk size, and a whole
/// number of little-endian samples; together the datagrams are exactly the
/// encoding of one block, cut in order.
pub fn poll_outbound(
    rx: &crossbeam_channel::Receiver<Vec<i16>>,
    counters: &mut Counters,
) -> (datagrams: Vec<Vec<u8>>)
    ensures
        final(counters).packets_sent == old(counters).packets_sent,
        final(counters).packets_recv == old(counters).packets_recv,
        final(counters).packets_recv_with_audio == old(counters).packets_recv_with_audio,
        final(counters).audio_callbacks == old(counters).audio_callbacks,
        final(counters).packets_sent_with_audio == old(counters).packets_sent_with_audio
            || final(counters).packets_sent_with_audio == bump(
            old(counters).packets_sent_with_audio,
        ),
        forall|i: int|
            0 <= i < datagrams@.len() ==> 1 <= #[trigger] datagrams@[i]@.len()
                <= MAX_DATAGRAM_BYTES && datagrams@[i]@.len() % 2 == 0,
        datagrams@.len() > 0 ==> exists|b: Seq<i16>|
            datagrams@.map_values(|d: Vec<u8>| d@) == #[trigger] chunks_spec(
                encode_wire(b),
                MAX_DATAGRAM_BYTES as int,
            ) && decode_chunks(datagrams@.map_values(|d: Vec<u8>| d@)) == b,
{
    match try_recv_block(rx) {
        Some(block) => {
            if block_has_audio(&block) {
                counters.record_sent_with_audio();
            }
            if block.len() <= usize::MAX / 2 {
                let datagrams: Vec<Vec<u8>> = fragment_block(&block);
                proof {
                    let wire = encode_wire(block@);
                    let sz = MAX_DATAGRAM_BYTES as int;
                    lemma_chunks_wire_invariant(wire, sz);
                    lemma_fragment_decode_roundtrip(block@);
                    lemma_mod_multiples_basic(block@.len() as int, 2);
                    assert(wire.len() % 2 == 0);
                    let mapped = datagrams@.map_values(|d: Vec<u8>| d@);
                    assert forall|i: int|
                        0 <= i < datagrams@.len() implies 1 <= #[trigger] datagrams@[i]@.len()
                        <= MAX_DATAGRAM_BYTES && datagrams@[i]@.len() % 2 == 0 by {
                        assert(mapped[i] == datagrams@[i]@);
                        assert(1 <= chunks_spec(wire, sz)[i].len() <= sz);
                        assert(chunks_spec(wire, sz)[i].len() % 2 == 0);
                    }
                }
                datagrams
            } else {
                Vec::new()
            }
        },
        None => Vec::new(),
    }
}

} // verus!
