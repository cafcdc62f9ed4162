use quoteme::vad::{
    count_frames, filter_silence, FRAME_SAMPLES, HANGOVER_FRAMES, NOISE_ESTIMATION_FRAMES,
    PREFILL_FRAMES,
};

fn rms(samples: &[f32]) -> f32 {
    if samples.is_empty() {
        return 0.0;
    }
    let sum_sq: f32 = samples.iter().map(|s| s * s).sum();
    (sum_sq / samples.len() as f32).sqrt()
}

/// Filters by loudness against a noise floor.
fn filtered(audio: &[f32]) -> Vec<f32> {
    let levels: Vec<f32> = audio.chunks(FRAME_SAMPLES).map(rms).collect();
    let quiet = levels.len().min(NOISE_ESTIMATION_FRAMES);
    let noise: f32 = levels[..quiet].iter().sum::<f32>() / quiet.max(1) as f32;
    let threshold = (noise * 4.0).max(0.002);
    let loud: Vec<bool> = levels.iter().map(|l| *l > threshold).collect();
    assert_eq!(loud.len(), count_frames(audio.len()));
    filter_silence(audio, &loud)
}

/// Audio made of (amplitude, frame count) pairs.
fn build_audio(segments: &[(f32, usize)]) -> Vec<f32> {
    segments
        .iter()
        .flat_map(|&(amp, n)| vec![amp; n * FRAME_SAMPLES])
        .collect()
}

#[test]
fn empty_input_returns_empty() {
    assert!(filtered(&[]).is_empty());
}

#[test]
fn all_silence_falls_through_unchanged() {
    let audio = build_audio(&[(0.0001, 32)]);
    let result = filtered(&audio);
    assert_eq!(result.len(), audio.len(), "all-silence audio must pass through unchanged");
    assert_eq!(result[0], 0.0001_f32);
}

#[test]
fn speech_frames_are_stripped_to_correct_length() {
    let audio = build_audio(&[(0.0001, 20), (0.5, 3), (0.0001, 20)]);
    let result = filtered(&audio);
    let expected = (PREFILL_FRAMES + 3 + HANGOVER_FRAMES) * FRAME_SAMPLES;
    assert_eq!(result.len(), expected, "VAD should keep prefill + speech + hangover");
    assert!(result.len() < audio.len(), "VAD must strip silent regions");
}

#[test]
fn prefill_frames_precede_speech() {
    let audio = build_audio(&[(0.0001, 20), (0.5, 3), (0.0001, 20)]);
    let result = filtered(&audio);
    for &s in &result[..PREFILL_FRAMES * FRAME_SAMPLES] {
        assert_eq!(s, 0.0001_f32, "prefill samples must be from the silent region");
    }
}

#[test]
fn hangover_tail_follows_last_speech_frame() {
    let audio = build_audio(&[(0.0001, 20), (0.5, 3), (0.0001, 20)]);
    let result = filtered(&audio);
    let hangover_start = result.len() - HANGOVER_FRAMES * FRAME_SAMPLES;
    for &s in &result[hangover_start..] {
        assert_eq!(s, 0.0001_f32, "hangover samples must come from the silent tail");
    }
}

#[test]
fn two_speech_bursts_separated_by_long_silence() {
    let silence = 0.0001_f32;
    let loud = 0.5_f32;
    let gap = HANGOVER_FRAMES + PREFILL_FRAMES + 5;
    let audio = build_audio(&[
        (silence, 20),
        (loud, 2),
        (silence, gap),
        (loud, 2),
        (silence, 20),
    ]);
    let result = filtered(&audio);
    assert!(result.len() < audio.len());
    assert!(!result.is_empty());
    let kept = 2 * (PREFILL_FRAMES + 2 + HANGOVER_FRAMES);
    assert_eq!(result.len(), kept * FRAME_SAMPLES);
}

#[test]
fn frames_are_told_by_their_numbers() {
    // Each frame holds its own number; the last one is short.
    let audio: Vec<usize> = (0..40 * FRAME_SAMPLES + 7).map(|i| i / FRAME_SAMPLES).collect();
    let mut loud = vec![false; 41];
    loud[8] = true;
    loud[20] = true;
    loud[38] = true;
    let mut kept: Vec<usize> = filter_silence(&audio, &loud);
    assert_eq!(kept.len(), (28 + 7) * FRAME_SAMPLES + 7);
    kept.dedup();
    let expected: Vec<usize> = (3..=30).chain(33..=40).collect();
    assert_eq!(kept, expected);
}

#[test]
fn all_loud_is_kept_whole() {
    let audio: Vec<u8> = vec![1; 3 * FRAME_SAMPLES + 1];
    assert_eq!(filter_silence(&audio, &[true; 4]), audio);
}

#[test]
fn frame_counts() {
    assert_eq!(count_frames(0), 0);
    assert_eq!(count_frames(1), 1);
    assert_eq!(count_frames(480), 1);
    assert_eq!(count_frames(481), 2);
}
