use rustic_audio_tool::activity::{recording_paths, Activity, ActivityFlags};

#[test]
fn only_one_operation_at_a_time() {
    let mut flags = ActivityFlags::idle();
    assert!(!flags.is_busy());
    assert_eq!(flags.try_begin(Activity::PlayingOriginal), Ok(()));
    assert!(flags.playing_original);
    assert!(flags.is_playing());
    let before = flags;
    assert_eq!(
        flags.try_begin(Activity::Recording),
        Err("Another operation is already in progress".to_string())
    );
    assert_eq!(flags, before);
}

#[test]
fn recording_can_only_be_stopped_while_recording() {
    let mut flags = ActivityFlags::idle();
    assert_eq!(flags.try_end_recording(), Err("Not currently recording".to_string()));
    assert_eq!(flags.try_begin(Activity::Recording), Ok(()));
    assert!(!flags.is_playing());
    assert_eq!(flags.try_end_recording(), Ok(()));
    assert!(!flags.is_busy());
}

#[test]
fn derived_paths_strip_wav_extensions() {
    let paths = recording_paths("take.wav");
    assert_eq!(paths.original_wav, "take_original.wav");
    assert_eq!(paths.processed_wav, "take_processed.wav");
    assert_eq!(paths.processed_opus, "take_processed.opus");
    assert_eq!(paths.unprocessed_opus, "take_unprocessed.opus");
    let paths = recording_paths("a.wav.wav");
    assert_eq!(paths.original_wav, "a_original.wav");
    let paths = recording_paths("b.mp3");
    assert_eq!(paths.processed_opus, "b.mp3_processed.opus");
    let paths = recording_paths(".wav");
    assert_eq!(paths.unprocessed_opus, "_unprocessed.opus");
}

#[test]
fn derived_paths_never_collide_with_the_recording() {
    for output in ["take.wav", "take_original.wav", "x", ".wav.wav", "a_processed.opus"] {
        let paths = recording_paths(output);
        let all = [
            paths.original_wav.clone(),
            paths.processed_wav.clone(),
            paths.processed_opus.clone(),
            paths.unprocessed_opus.clone(),
        ];
        for (i, a) in all.iter().enumerate() {
            assert_ne!(a, output);
            for b in all.iter().skip(i + 1) {
                assert_ne!(a, b);
            }
        }
    }
}
