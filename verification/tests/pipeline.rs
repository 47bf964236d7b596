use budbridge::pipeline::{block_has_audio, downmix, downsample, downsample_ratio, process_batch};
use budbridge::pcm::{quantize, QUANT_MAX};

#[test]
fn quantize_boundaries_are_symmetric() {
    assert_eq!(quantize(32768), QUANT_MAX);
    assert_eq!(quantize(-32768), -QUANT_MAX);
}

#[test]
fn quantize_clamps_out_of_range_amplitudes() {
    assert_eq!(quantize(1_000_000), 32767);
    assert_eq!(quantize(-1_000_000), -32767);
    assert_eq!(quantize(i32::MAX), 32767);
    assert_eq!(quantize(i32::MIN), -32767);
}

#[test]
fn quantize_half_amplitude() {
    // 16384 is amplitude 0.5; 0.5 * 32767 truncates to 16383.
    assert_eq!(quantize(16384), 16383);
    assert_eq!(quantize(0), 0);
    assert_eq!(quantize(-16384), -16383);
}

#[test]
fn quantize_is_monotonic_on_a_sweep() {
    let mut prev = quantize(-40000);
    let mut raw: i32 = -40000;
    while raw <= 40000 {
        let q = quantize(raw);
        assert!(prev <= q);
        prev = q;
        raw += 73;
    }
}

#[test]
fn downsample_keeps_every_ratio_th_sample() {
    let data: Vec<i32> = vec![10, 11, 12, 13, 14, 15, 16];
    // ceil(7 / 3) == 3, positions 0, 3, 6.
    assert_eq!(downsample(&data, 3), vec![10, 13, 16]);
    assert_eq!(downsample(&data, 1), data);
    assert_eq!(downsample(&Vec::new(), 4), Vec::<i32>::new());
}

#[test]
fn downsample_ratio_floors_and_defaults_to_one() {
    assert_eq!(downsample_ratio(48000, 24000), 2);
    assert_eq!(downsample_ratio(44100, 24000), 1);
    assert_eq!(downsample_ratio(24000, 48000), 1);
    assert_eq!(downsample_ratio(48000, 48000), 1);
}

#[test]
fn downmix_averages_stereo_pairs() {
    let data: Vec<i32> = vec![8192, 24576, -100, 100];
    assert_eq!(downmix(&data, 2), vec![16384, 0]);
}

#[test]
fn downmix_dangling_sample_is_halved() {
    let data: Vec<i32> = vec![10, 20, 7];
    assert_eq!(downmix(&data, 2), vec![15, 3]);
}

#[test]
fn downmix_mono_passes_through() {
    let data: Vec<i32> = vec![1, 2, 3];
    assert_eq!(downmix(&data, 1), data);
}

#[test]
fn capture_batch_at_half_rate() {
    // A 48 kHz mono batch of 960 samples at amplitude 0.5, target 24 kHz:
    // one block of 480 samples, each round(0.5 * 32767) truncated = 16383.
    let data: Vec<i32> = vec![16384; 960];
    let block = process_batch(&data, 1, 48000, 24000);
    assert_eq!(block.len(), 480);
    assert!(block.iter().all(|&s| s == 16383));
}

#[test]
fn audio_detection_threshold() {
    assert!(!block_has_audio(&vec![0, 50, -100, 100]));
    assert!(block_has_audio(&vec![0, 101]));
    assert!(block_has_audio(&vec![-101]));
    assert!(!block_has_audio(&Vec::new()));
}
