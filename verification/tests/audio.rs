use std::time::{Duration, Instant};

use hearsay::frames::{_placeholder_frame, split_frames, AudioFrame, FRAME_SAMPLES};

#[test]
fn duration_for_1s_of_mono_16k() {
    let f = AudioFrame {
        pcm: vec![0.0f32; 16_000],
        sample_rate: 16_000,
        channels: 1,
        captured_at: Instant::now(),
    };
    assert_eq!(f.duration(), Duration::from_secs(1));
}

#[test]
fn duration_for_500ms_of_stereo_48k() {
    let f = AudioFrame {
        pcm: vec![0.0f32; 48_000],
        sample_rate: 48_000,
        channels: 2,
        captured_at: Instant::now(),
    };
    assert_eq!(f.duration(), Duration::from_millis(500));
}

#[test]
fn zero_channels_count_as_one() {
    let f = AudioFrame { pcm: vec![0i16; 8], sample_rate: 16_000, channels: 0, captured_at: Instant::now() };
    assert_eq!(f.duration_nanos(), 500_000);
}

#[test]
fn placeholder_frame_is_empty_mono_16k() {
    let f: AudioFrame<f32> = _placeholder_frame();
    assert!(f.pcm.is_empty());
    assert_eq!(f.sample_rate, 16_000);
    assert_eq!(f.channels, 1);
}

#[test]
fn split_frames_keeps_the_remainder() {
    let mut buf: Vec<u32> = (0..(FRAME_SAMPLES as u32 * 2 + 17)).collect();
    let frames = split_frames(&mut buf);
    assert_eq!(frames.len(), 2);
    assert_eq!(frames[0][0], 0);
    assert_eq!(frames[1][0], FRAME_SAMPLES as u32);
    assert!(frames.iter().all(|f| f.len() == FRAME_SAMPLES));
    assert_eq!(buf, (FRAME_SAMPLES as u32 * 2..FRAME_SAMPLES as u32 * 2 + 17).collect::<Vec<_>>());
    let mut short = vec![1.0f32; 5];
    assert!(split_frames(&mut short).is_empty());
    assert_eq!(short.len(), 5);
}
