use budbridge::counters::Counters;
use budbridge::pcm::{decode_datagram, encode_block};
use budbridge::session::{capture_callback, handle_datagram, poll_outbound};

#[test]
fn capture_callback_feeds_the_outbound_channel() {
    // The capture scenario end to end: a 48 kHz mono batch of 960 samples
    // at amplitude 0.5 with a 24 kHz target yields one block of 480
    // samples, each 16383, on the outbound channel.
    let (tx, rx) = crossbeam_channel::bounded::<Vec<i16>>(4);
    let mut counters = Counters::new();
    let data: Vec<i32> = vec![16384; 960];
    let n = capture_callback(&data, 1, 48000, 24000, &tx, &mut counters);
    assert_eq!(n, 480);
    assert_eq!(counters.audio_callbacks, 1);
    let block = rx.try_recv().expect("block should be queued");
    assert_eq!(block.len(), 480);
    assert!(block.iter().all(|&s| s == 16383));
}

#[test]
fn capture_callback_drops_when_the_channel_is_full() {
    let (tx, rx) = crossbeam_channel::bounded::<Vec<i16>>(1);
    let mut counters = Counters::new();
    let data: Vec<i32> = vec![100; 4];
    capture_callback(&data, 1, 48000, 48000, &tx, &mut counters);
    capture_callback(&data, 1, 48000, 48000, &tx, &mut counters);
    assert_eq!(counters.audio_callbacks, 2);
    assert!(rx.try_recv().is_ok());
    assert!(rx.try_recv().is_err());
}

#[test]
fn handle_datagram_decodes_and_counts() {
    let (tx, rx) = crossbeam_channel::bounded::<Vec<i16>>(4);
    let mut counters = Counters::new();
    let payload: Vec<u8> = vec![1, 0, 2, 0, 3, 0, 99];
    let n = handle_datagram(&payload[..], &tx, &mut counters);
    assert_eq!(n, 3);
    assert_eq!(counters.packets_recv, 1);
    assert_eq!(counters.packets_recv_with_audio, 0);
    assert_eq!(rx.try_recv().unwrap(), vec![1, 2, 3]);
}

#[test]
fn poll_outbound_fragments_a_waiting_block() {
    let (tx, rx) = crossbeam_channel::bounded::<Vec<i16>>(4);
    let mut counters = Counters::new();
    let block: Vec<i16> = (0..1000).map(|i| i as i16).collect();
    tx.try_send(block.clone()).unwrap();
    let datagrams = poll_outbound(&rx, &mut counters);
    assert_eq!(datagrams.len(), 2);
    assert_eq!(datagrams[0].len(), 1400);
    assert_eq!(datagrams[1].len(), 600);
    let mut joined: Vec<u8> = Vec::new();
    let mut assembled: Vec<i16> = Vec::new();
    for d in &datagrams {
        joined.extend_from_slice(d);
        assembled.extend(decode_datagram(&d[..]));
    }
    assert_eq!(joined, encode_block(&block));
    assert_eq!(assembled, block);
    assert_eq!(counters.packets_sent_with_audio, 1);
}

#[test]
fn poll_outbound_with_nothing_waiting_returns_nothing() {
    let (_tx, rx) = crossbeam_channel::bounded::<Vec<i16>>(4);
    let mut counters = Counters::new();
    let datagrams = poll_outbound(&rx, &mut counters);
    assert!(datagrams.is_empty());
    assert_eq!(counters.packets_sent_with_audio, 0);
}

#[test]
fn quiet_block_is_not_counted_as_audio() {
    let (tx, rx) = crossbeam_channel::bounded::<Vec<i16>>(4);
    let mut counters = Counters::new();
    tx.try_send(vec![0, 50, -100]).unwrap();
    let datagrams = poll_outbound(&rx, &mut counters);
    assert_eq!(datagrams.len(), 1);
    assert_eq!(counters.packets_sent_with_audio, 0);
}
