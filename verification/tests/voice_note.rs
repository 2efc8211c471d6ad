use rustic_audio_tool::voice_note::{
    admit_request, cancel_capture_outcome, cancelled_message, clip_file_name, chars_of,
    same_text, sanitize_stem, stop_capture_result, store_playback_error, CancelOutcome,
    CaptureJoin, EngineRequest,
};

#[test]
fn sanitize_stem_normalizes_unsafe_characters() {
    assert_eq!(sanitize_stem("../voice note?.opus"), "voice-note--opus");
    assert_eq!(sanitize_stem(""), "voice-note");
}

#[test]
fn store_playback_error_keeps_the_first_failure() {
    let mut slot = None;

    store_playback_error(&mut slot, "first".to_string());
    store_playback_error(&mut slot, "second".to_string());

    assert_eq!(slot, Some("first".to_string()));
}

#[test]
fn sanitize_stem_keeps_safe_names_and_trims_dashes() {
    assert_eq!(sanitize_stem("draft_01"), "draft_01");
    assert_eq!(sanitize_stem("--a--b--"), "a--b");
    assert_eq!(sanitize_stem("///"), "voice-note");
    assert_eq!(sanitize_stem("héllo wörld"), "h-llo-w-rld");
}

#[test]
fn sanitize_stem_is_idempotent_on_examples() {
    for stem in ["../draft preview", "", "a", "-x-", "ü/ß", "voice-note--opus"] {
        let once = sanitize_stem(stem);
        assert_eq!(sanitize_stem(&once), once);
    }
}

#[test]
fn clip_file_name_joins_stem_suffix_and_extension() {
    assert_eq!(clip_file_name(Some("../draft preview"), 1234), "draft-preview-1234.opus");
    assert_eq!(clip_file_name(None, 0), "voice-note-0.opus");
    assert_eq!(
        clip_file_name(Some("x"), u128::MAX),
        format!("x-{}.opus", u128::MAX)
    );
}

#[test]
fn clip_file_name_has_no_directory_part() {
    let name = clip_file_name(Some("../../etc/passwd"), 1700000000000);
    assert!(!name.contains('/'));
    assert!(name.ends_with(".opus"));
    assert!(name.starts_with("etc-passwd-"));
    assert_eq!(name.matches('.').count(), 1);
}

#[test]
fn chars_and_text_equality() {
    assert_eq!(chars_of("aé"), vec!['a', 'é']);
    assert!(same_text("recording cancelled", "recording cancelled"));
    assert!(!same_text("recording cancelled", "recording cancelle"));
    assert!(!same_text("abc", "abd"));
    assert_eq!(cancelled_message(), "recording cancelled");
}

#[test]
fn cancel_outcome_follows_thread_result() {
    match cancel_capture_outcome(CaptureJoin::Finished(Ok(7u32))) {
        CancelOutcome::DiscardClip(c) => assert_eq!(c, 7),
        _ => panic!("expected the clip to be discarded"),
    }
    match cancel_capture_outcome::<u32>(CaptureJoin::Finished(Err("recording cancelled".to_string()))) {
        CancelOutcome::Cancelled => {}
        _ => panic!("expected a cancelled capture"),
    }
    match cancel_capture_outcome::<u32>(CaptureJoin::Finished(Err("no device".to_string()))) {
        CancelOutcome::Failed(e) => assert_eq!(e, "no device"),
        _ => panic!("expected a failure"),
    }
    match cancel_capture_outcome::<u32>(CaptureJoin::Panicked) {
        CancelOutcome::Failed(e) => assert_eq!(e, "failed to join capture thread"),
        _ => panic!("expected a failure"),
    }
}

#[test]
fn stop_capture_result_passes_thread_result_through() {
    assert_eq!(stop_capture_result(CaptureJoin::Finished(Ok(3u8))), Ok(3));
    assert_eq!(
        stop_capture_result::<u8>(CaptureJoin::Finished(Err("boom".to_string()))),
        Err("boom".to_string())
    );
    assert_eq!(
        stop_capture_result::<u8>(CaptureJoin::Panicked),
        Err("failed to join capture thread".to_string())
    );
}

#[test]
fn capture_refuses_conflicting_requests() {
    assert_eq!(admit_request(EngineRequest::StartCapture, false), Ok(()));
    assert_eq!(admit_request(EngineRequest::PlayClip, false), Ok(()));
    assert_eq!(
        admit_request(EngineRequest::StartCapture, true),
        Err("capture is already active".to_string())
    );
    assert_eq!(
        admit_request(EngineRequest::PlayClip, true),
        Err("capture is active".to_string())
    );
}
