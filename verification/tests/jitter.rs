use budbridge::jitter::{JitterBuffer, JITTER_CAPACITY};

#[test]
fn appends_evict_oldest_first() {
    // Three appends of 1000 samples into a capacity of 2400: the length
    // settles at the capacity and the earliest 600 samples of the logical
    // stream are gone.
    let mut jb = JitterBuffer::new(JITTER_CAPACITY);
    for chunk in 0..3u32 {
        let block: Vec<i16> = (chunk * 1000..(chunk + 1) * 1000).map(|i| i as i16).collect();
        jb.append_block(&block);
    }
    assert_eq!(jb.len(), 2400);
    let drained = jb.drain_into(2400, 1);
    let expected: Vec<i16> = (600..3000u32).map(|i| i as i16).collect();
    assert_eq!(drained, expected);
    assert_eq!(jb.len(), 0);
}

#[test]
fn length_is_min_of_pushed_and_capacity() {
    let mut jb = JitterBuffer::new(5);
    jb.append_block(&vec![1, 2]);
    assert_eq!(jb.len(), 2);
    jb.append_block(&vec![3, 4]);
    assert_eq!(jb.len(), 4);
    jb.append_block(&vec![5, 6]);
    assert_eq!(jb.len(), 5);
    let drained = jb.drain_into(5, 1);
    assert_eq!(drained, vec![2, 3, 4, 5, 6]);
}

#[test]
fn one_oversized_append_keeps_its_tail() {
    let mut jb = JitterBuffer::new(3);
    jb.append_block(&vec![1, 2, 3, 4, 5]);
    assert_eq!(jb.len(), 3);
    assert_eq!(jb.drain_into(3, 1), vec![3, 4, 5]);
}

#[test]
fn underrun_yields_silence_and_no_error() {
    // 512 slots from an empty buffer: 512 zeros, buffer still empty.
    let mut jb = JitterBuffer::new(JITTER_CAPACITY);
    let out = jb.drain_into(512, 1);
    assert_eq!(out.len(), 512);
    assert!(out.iter().all(|&s| s == 0));
    assert_eq!(jb.len(), 0);
}

#[test]
fn stereo_drain_duplicates_each_sample() {
    let mut jb = JitterBuffer::new(8);
    jb.append_block(&vec![1, 2, 3]);
    let out = jb.drain_into(6, 2);
    assert_eq!(out, vec![1, 1, 2, 2, 3, 3]);
    assert_eq!(jb.len(), 0);
}

#[test]
fn stereo_drain_with_odd_slot_count() {
    let mut jb = JitterBuffer::new(8);
    jb.append_block(&vec![1, 2, 3, 4]);
    let out = jb.drain_into(5, 2);
    assert_eq!(out, vec![1, 1, 2, 2, 3]);
    assert_eq!(jb.len(), 1);
}

#[test]
fn partial_underrun_pads_with_silence() {
    let mut jb = JitterBuffer::new(8);
    jb.append_block(&vec![7, 8]);
    let out = jb.drain_into(4, 1);
    assert_eq!(out, vec![7, 8, 0, 0]);
    assert_eq!(jb.len(), 0);
}

#[test]
fn pop_or_silence_matches_head() {
    let mut jb = JitterBuffer::new(4);
    assert_eq!(jb.pop_or_silence(), 0);
    jb.append_block(&vec![9, -9]);
    assert_eq!(jb.pop_or_silence(), 9);
    assert_eq!(jb.pop_or_silence(), -9);
    assert_eq!(jb.pop_or_silence(), 0);
}
