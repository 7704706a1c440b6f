use glazebot::buffer::{downmix, SampleBuffer, MAX_AUDIO_SAMPLES};
use glazebot::dsp::{compute_rms, resample_to_16k, TARGET_RATE};

#[test]
fn rms_of_empty_window_is_zero() {
    assert_eq!(compute_rms(&[]), 0);
}

#[test]
fn rms_of_constant_window_is_its_magnitude() {
    assert_eq!(compute_rms(&[-1000, -1000, -1000]), 1000);
    assert_eq!(compute_rms(&[1638, 1638, 1638]), 1638);
    assert_eq!(compute_rms(&[-32768, -32768, -32768, -32768]), 32768);
}

#[test]
fn rms_rounds_down() {
    // mean square of [3, 4] is 12.5; its root is 3.53
    assert_eq!(compute_rms(&[3, 4]), 3);
}

#[test]
fn rms_scales_with_the_samples() {
    let base = compute_rms(&[100, 200, 300]);
    assert_eq!(base, 216);
    assert_eq!(compute_rms(&[300, 600, 900]), 3 * base);
}

#[test]
fn resample_at_target_rate_is_identity() {
    let input: Vec<i16> = vec![5, -7, 300, 12, 0, -32768, 32767];
    assert_eq!(resample_to_16k(&input, TARGET_RATE), input);
}

#[test]
fn resample_constant_stays_constant() {
    let input = vec![1638i16; 96000];
    let out = resample_to_16k(&input, 48000);
    assert_eq!(out.len(), 32000);
    assert!(out.iter().all(|&s| s == 1638));
}

#[test]
fn resample_length_is_floor_of_ratio() {
    assert_eq!(resample_to_16k(&vec![0i16; 44100], 44100).len(), 16000);
    assert_eq!(resample_to_16k(&vec![0i16; 100], 48000).len(), 33);
    assert_eq!(resample_to_16k(&vec![0i16; 10], 8000).len(), 20);
    assert_eq!(resample_to_16k(&[], 48000).len(), 0);
}

#[test]
fn resample_interpolates_between_neighbours() {
    assert_eq!(resample_to_16k(&[0, 100, 200, 300], 24000), vec![0, 150]);
    assert_eq!(resample_to_16k(&[100, 0], 8000), vec![100, 50, 0, 0]);
    assert_eq!(resample_to_16k(&[0, -3], 8000), vec![0, -1, -3, -3]);
}

#[test]
fn downmix_averages_each_frame() {
    assert_eq!(downmix(&[1, 2, 3, 4], 2), vec![1, 3]);
    assert_eq!(downmix(&[-1, -2], 2), vec![-1]);
    assert_eq!(downmix(&[10, 20, 30], 2), vec![15, 15]);
    assert_eq!(downmix(&[9, 8, 7], 1), vec![9, 8, 7]);
    assert_eq!(downmix(&[32767, 32767, -32768, -32768], 2), vec![32767, -32768]);
}

#[test]
fn buffer_drops_samples_beyond_the_cap() {
    let mut buf = SampleBuffer::new();
    buf.push_frames(&vec![1i16; MAX_AUDIO_SAMPLES - 3], 1);
    buf.push_frames(&[2, 2, 3, 3, 4, 4, 5, 5], 2);
    assert_eq!(buf.len(), MAX_AUDIO_SAMPLES);
    let all = buf.snapshot();
    assert_eq!(&all[MAX_AUDIO_SAMPLES - 4..], &[1, 2, 3, 4]);
    buf.push_frames(&[7, 7], 1);
    assert_eq!(buf.len(), MAX_AUDIO_SAMPLES);
}

#[test]
fn buffer_keep_last_and_take_all() {
    let mut buf = SampleBuffer::new();
    buf.push_frames(&[1, 2, 3, 4, 5], 1);
    buf.keep_last(3);
    assert_eq!(buf.snapshot(), vec![3, 4, 5]);
    buf.keep_last(10);
    assert_eq!(buf.snapshot(), vec![3, 4, 5]);
    assert_eq!(buf.take_all(), vec![3, 4, 5]);
    assert!(buf.is_empty());
}

#[test]
fn buffer_tail_rms_looks_at_the_trailing_window() {
    let mut buf = SampleBuffer::new();
    buf.push_frames(&vec![1000i16; 600], 1);
    buf.push_frames(&vec![0i16; 512], 1);
    assert_eq!(buf.tail_rms(512), 0);
    assert_eq!(buf.tail_rms(1112), compute_rms(&buf.snapshot()));
    assert!(buf.tail_rms(2000) > 0);
}
