use rustic_audio_tool::playback_flow::{
    decoded_frame, frame_exhausted, playback_result, producer_disconnected_message,
    producer_failure_message, refill_step, startup_failure_message, startup_step,
    store_error_once, take_error, FramePoll, FrameWait, ProducerState, RefillStep,
    StartupFailure, StartupStep,
};
use rustic_audio_tool::playback_flow::ProducerState::{Completed, Failed, Running};

#[test]
fn producer_codes_round_trip() {
    for state in [ProducerState::Running, ProducerState::Completed, ProducerState::Failed] {
        assert_eq!(ProducerState::from_code(state.code()), state);
    }
    assert_eq!(ProducerState::Running.code(), 0);
    assert_eq!(ProducerState::Completed.code(), 1);
    assert_eq!(ProducerState::Failed.code(), 2);
    assert_eq!(ProducerState::from_code(200), ProducerState::Running);
}

#[test]
fn error_slot_keeps_first_and_empties_on_take() {
    let mut slot = None;
    store_error_once(&mut slot, "a".to_string());
    store_error_once(&mut slot, "b".to_string());
    assert_eq!(take_error(&mut slot), Some("a".to_string()));
    assert_eq!(slot, None);
    assert_eq!(take_error(&mut slot), None);
}

#[test]
fn startup_decisions() {
    assert_eq!(startup_step(FrameWait::Frame, Failed), StartupStep::UseFrame);
    assert_eq!(startup_step(FrameWait::Timeout, Completed), StartupStep::NoAudio);
    assert_eq!(startup_step(FrameWait::Timeout, Running), StartupStep::KeepWaiting);
    assert_eq!(
        startup_step(FrameWait::Timeout, Failed),
        StartupStep::Fail(StartupFailure::ProducerFailed)
    );
    assert_eq!(startup_step(FrameWait::Disconnected, Completed), StartupStep::NoAudio);
    assert_eq!(
        startup_step(FrameWait::Disconnected, Failed),
        StartupStep::Fail(StartupFailure::ProducerFailed)
    );
    assert_eq!(
        startup_step(FrameWait::Disconnected, Running),
        StartupStep::Fail(StartupFailure::ProducerDisconnected)
    );
}

#[test]
fn failure_messages() {
    assert_eq!(producer_failure_message(None), "playback producer failed");
    assert_eq!(producer_failure_message(Some("bad file".to_string())), "bad file");
    assert_eq!(
        producer_disconnected_message(),
        "playback producer disconnected unexpectedly"
    );
    assert_eq!(
        startup_failure_message(StartupFailure::ProducerDisconnected, Some("x".to_string())),
        "playback producer disconnected unexpectedly"
    );
    assert_eq!(
        startup_failure_message(StartupFailure::ProducerFailed, Some("x".to_string())),
        "x"
    );
}

#[test]
fn refill_decisions() {
    assert_eq!(refill_step(FramePoll::Frame, Running), RefillStep::UseFrame);
    assert_eq!(refill_step(FramePoll::Empty, Running), RefillStep::Underrun);
    assert_eq!(refill_step(FramePoll::Empty, Completed), RefillStep::Finish);
    assert_eq!(refill_step(FramePoll::Empty, Failed), RefillStep::Finish);
    assert_eq!(refill_step(FramePoll::Disconnected, Running), RefillStep::FinishWithError);
    assert_eq!(refill_step(FramePoll::Disconnected, Completed), RefillStep::Finish);
    assert!(frame_exhausted(None, 0));
    assert!(frame_exhausted(Some(3), 3));
    assert!(!frame_exhausted(Some(3), 2));
}

#[test]
fn playback_result_prefers_callback_error() {
    assert_eq!(
        playback_result(Some("cb".to_string()), ProducerState::Failed, Some("p".to_string())),
        Err("cb".to_string())
    );
    assert_eq!(
        playback_result(None, ProducerState::Failed, Some("p".to_string())),
        Err("p".to_string())
    );
    assert_eq!(
        playback_result(None, ProducerState::Failed, None),
        Err("playback producer failed".to_string())
    );
    assert_eq!(playback_result(None, ProducerState::Completed, None), Ok(()));
}

#[test]
fn decoded_frame_takes_produced_samples() {
    let buffer = [0.5f32, 0.25, 0.0, 0.0];
    assert_eq!(decoded_frame(&buffer, 0), None);
    assert_eq!(decoded_frame(&buffer, 2), Some(vec![0.5, 0.25]));
}
