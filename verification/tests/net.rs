use budbridge::counters::Counters;
use budbridge::net::{fragment_block, ingest_datagram, outbound_step, MAX_DATAGRAM_BYTES};
use budbridge::pcm::encode_block;
use budbridge::queue::BoundedQueue;

#[test]
fn large_block_splits_below_the_mtu_cap() {
    let samples: Vec<i16> = (0..1000).map(|i| i as i16).collect();
    let datagrams = fragment_block(&samples);
    assert_eq!(datagrams.len(), 2);
    assert_eq!(datagrams[0].len(), MAX_DATAGRAM_BYTES);
    assert_eq!(datagrams[1].len(), 600);
    let mut joined: Vec<u8> = Vec::new();
    for d in &datagrams {
        assert!(d.len() % 2 == 0);
        joined.extend_from_slice(d);
    }
    assert_eq!(joined, encode_block(&samples));
}

#[test]
fn small_block_is_one_datagram() {
    let samples: Vec<i16> = vec![5, -5, 700];
    let datagrams = fragment_block(&samples);
    assert_eq!(datagrams.len(), 1);
    assert_eq!(datagrams[0], encode_block(&samples));
}

#[test]
fn empty_block_sends_nothing() {
    let datagrams = fragment_block(&Vec::new());
    assert!(datagrams.is_empty());
}

#[test]
fn seven_byte_datagram_decodes_three_samples() {
    // A 7-byte payload decodes to exactly 3 samples, the trailing byte
    // is discarded, and the received-packet counter advances by one.
    let mut inbound: BoundedQueue<Vec<i16>> = BoundedQueue::new(4);
    let mut counters = Counters::new();
    let payload: Vec<u8> = vec![1, 0, 2, 0, 3, 0, 99];
    let n = ingest_datagram(&payload[..], &mut inbound, &mut counters);
    assert_eq!(n, 3);
    assert_eq!(counters.packets_recv, 1);
    assert_eq!(counters.packets_recv_with_audio, 0);
    assert_eq!(inbound.try_pop(), Some(vec![1, 2, 3]));
}

#[test]
fn loud_datagram_counts_as_audio() {
    let mut inbound: BoundedQueue<Vec<i16>> = BoundedQueue::new(4);
    let mut counters = Counters::new();
    // 0x0200 little-endian is 512, well above the threshold of 100.
    let payload: Vec<u8> = vec![0, 2];
    ingest_datagram(&payload[..], &mut inbound, &mut counters);
    assert_eq!(counters.packets_recv, 1);
    assert_eq!(counters.packets_recv_with_audio, 1);
}

#[test]
fn full_inbound_queue_drops_silently_but_still_counts() {
    let mut inbound: BoundedQueue<Vec<i16>> = BoundedQueue::new(1);
    let mut counters = Counters::new();
    ingest_datagram(&[1, 0][..], &mut inbound, &mut counters);
    ingest_datagram(&[2, 0][..], &mut inbound, &mut counters);
    assert_eq!(counters.packets_recv, 2);
    assert_eq!(inbound.len(), 1);
    assert_eq!(inbound.try_pop(), Some(vec![1]));
}

#[test]
fn outbound_step_fragments_the_oldest_block() {
    let mut outbound: BoundedQueue<Vec<i16>> = BoundedQueue::new(4);
    let mut counters = Counters::new();
    let block: Vec<i16> = vec![3000; 10];
    outbound.try_push(block.clone());
    let datagrams = outbound_step(&mut outbound, &mut counters);
    assert_eq!(datagrams.len(), 1);
    assert_eq!(datagrams[0], encode_block(&block));
    assert_eq!(counters.packets_sent_with_audio, 1);
    assert_eq!(counters.packets_sent, 0);
    assert_eq!(outbound.len(), 0);
}

#[test]
fn outbound_step_on_empty_queue_does_nothing() {
    let mut outbound: BoundedQueue<Vec<i16>> = BoundedQueue::new(4);
    let mut counters = Counters::new();
    let datagrams = outbound_step(&mut outbound, &mut counters);
    assert!(datagrams.is_empty());
    assert_eq!(counters.packets_sent_with_audio, 0);
}
