use vstd::prelude::*;

verus! {

/// Progress of the thread that decodes an Opus file into PCM frames.
#[derive(Clone, Copy, PartialEq, Eq, Structural, Debug)]
pub enum ProducerState {
    Running,
    Completed,
    Failed,
}

impl ProducerState {
    /// The code under which the state is shared between threads.
    pub fn code(self) -> (c: u8)
        ensures
            c == (match self {
                ProducerState::Running => 0u8,
                ProducerState::Completed => 1u8,
                ProducerState::Failed => 2u8,
            }),
    {
        match self {
            ProducerState::Running => 0,
            ProducerState::Completed => 1,
            ProducerState::Failed => 2,
        }
    }

    /// The state a shared code stands for; any unknown code reads as running.
    pub fn from_code(code: u8) -> (s: ProducerState)
        ensures
            s == (if code == 1 {
                ProducerState::Completed
            } else if code == 2 {
                ProducerState::Failed
            } else {
                ProducerState::Running
            }),
    {
        if code == 1 {
            ProducerState::Completed
        } else if code == 2 {
            ProducerState::Failed
        } else {
            ProducerState::Running
        }
    }
}

/// Law: decoding a shared code gives back the state that was encoded.
pub proof fn lemma_producer_code_round_trip(state: ProducerState)
    ensures
        ({
            let c: u8 = match state {
                ProducerState::Running => 0u8,
                ProducerState::Completed => 1u8,
                ProducerState::Failed => 2u8,
            };
            (if c == 1 {
                ProducerState::Completed
            } else if c == 2 {
                ProducerState::Failed
            } else {
                ProducerState::Running
            }) == state
        }),
{
}

/// The error slot after offering it `message`: the first error is kept.
pub open spec fn stored_error(slot: Option<String>, message: String) -> Option<String> {
    match slot {
        Some(first) => Some(first),
        None => Some(message),
    }
}

/// Records `message` unless an earlier error is already recorded.
pub fn store_error_once(slot: &mut Option<String>, message: String)
    ensures
        *final(slot) == stored_error(*old(slot), message),
{
    if slot.is_none() {
        *slot = Some(message);
    }
}

/// Takes the recorded error out of the slot, leaving it empty.
pub fn take_error(slot: &mut Option<String>) -> (error: Option<String>)
    ensures
        error == *old(slot),
        *final(slot) == None::<String>,
{
    let error = match slot {
        Some(_) => slot.take(),
        None => None,
    };
    error
}

/// Law: once an error is recorded, later offers leave it in place, so the
/// slot reports the first failure.
pub proof fn lemma_first_error_kept(slot: Option<String>, first: String, second: String)
    ensures
        stored_error(stored_error(slot, first), second) == stored_error(slot, first),
        slot is None ==> stored_error(stored_error(slot, first), second) == Some(first),
{
}

/// What waiting for the first decoded frame returned.
#[derive(Clone, Copy, PartialEq, Eq, Structural, Debug)]
pub enum FrameWait {
    /// A frame arrived.
    Frame,
    /// Nothing arrived within the wait.
    Timeout,
    /// The producer dropped its end of the queue.
    Disconnected,
}

/// Why playback could not start.
#[derive(Clone, Copy, PartialEq, Eq, Structural, Debug)]
pub enum StartupFailure {
    ProducerFailed,
    ProducerDisconnected,
}

/// The next move while waiting for the first decoded frame.
#[derive(Clone, Copy, PartialEq, Eq, Structural, Debug)]
pub enum StartupStep {
    /// Start the output stream with the frame that arrived.
    UseFrame,
    /// The file holds no audio: finish without playing.
    NoAudio,
    /// Wait again.
    KeepWaiting,
    Fail(StartupFailure),
}

/// Decides the next move of playback start-up from what the wait returned and
/// the producer's state: a frame is played; a completed producer means there
/// is no audio; a failed one is an error; a running one is waited for,
/// unless it dropped the queue, which is an error.
pub fn startup_step(wait: FrameWait, state: ProducerState) -> (step: StartupStep)
    ensures
        step == (match wait {
            FrameWait::Frame => StartupStep::UseFrame,
            FrameWait::Timeout => match state {
                ProducerState::Completed => StartupStep::NoAudio,
                ProducerState::Failed => StartupStep::Fail(StartupFailure::ProducerFailed),
                ProducerState::Running => StartupStep::KeepWaiting,
            },
            FrameWait::Disconnected => match state {
                ProducerState::Completed => StartupStep::NoAudio,
                ProducerState::Failed => StartupStep::Fail(StartupFailure::ProducerFailed),
                ProducerState::Running => StartupStep::Fail(StartupFailure::ProducerDisconnected),
            },
        }),
{
    match wait {
        FrameWait::Frame => StartupStep::UseFrame,
        FrameWait::Timeout => match state {
            ProducerState::Completed => StartupStep::NoAudio,
            ProducerState::Failed => StartupStep::Fail(StartupFailure::ProducerFailed),
            ProducerState::Running => StartupStep::KeepWaiting,
        },
        FrameWait::Disconnected => match state {
            ProducerState::Completed => StartupStep::NoAudio,
            ProducerState::Failed => StartupStep::Fail(StartupFailure::ProducerFailed),
            ProducerState::Running => StartupStep::Fail(StartupFailure::ProducerDisconnected),
        },
    }
}

/// "playback producer failed".
pub open spec fn producer_failed_text() -> Seq<char> {
    "playback producer failed"@
}

/// "playback producer disconnected unexpectedly".
pub open spec fn producer_disconnected_text() -> Seq<char> {
    "playback producer disconnected unexpectedly"@
}

/// The error reported for a failed producer: the error it recorded, or a
/// generic message when it recorded none.
pub fn producer_failure_message(recorded: Option<String>) -> (message: String)
    ensures
        message@ == (match recorded {
            Some(e) => e@,
            None => producer_failed_text(),
        }),
{
    match recorded {
        Some(e) => e,
        None => String::from_str("playback producer failed"),
    }
}

/// The error reported when the producer dropped its queue while running.
pub fn producer_disconnected_message() -> (message: String)
    ensures
        message@ == producer_disconnected_text(),
{
    String::from_str("playback producer disconnected unexpectedly")
}

/// The error playback start-up reports for `failure`.
pub fn startup_failure_message(failure: StartupFailure, recorded: Option<String>) -> (message: String)
    ensures
        message@ == (match failure {
            StartupFailure::ProducerFailed => match recorded {
                Some(e) => e@,
                None => producer_failed_text(),
            },
            StartupFailure::ProducerDisconnected => producer_disconnected_text(),
        }),
{
    match failure {
        StartupFailure::ProducerFailed => producer_failure_message(recorded),
        StartupFailure::ProducerDisconnected => producer_disconnected_message(),
    }
}

/// Whether the output callback needs a new frame: it has none, or has
/// played all samples of the current one.
pub fn frame_exhausted(frame_len: Option<usize>, position: usize) -> (needed: bool)
    ensures
        needed == (match frame_len {
            Some(len) => position >= len,
            None => true,
        }),
{
    match frame_len {
        Some(len) => position >= len,
        None => true,
    }
}

/// What polling the frame queue from the output callback returned.
#[derive(Clone, Copy, PartialEq, Eq, Structural, Debug)]
pub enum FramePoll {
    Frame,
    Empty,
    Disconnected,
}

/// The output callback's move when it needs a frame.
#[derive(Clone, Copy, PartialEq, Eq, Structural, Debug)]
pub enum RefillStep {
    /// Continue with the frame that arrived.
    UseFrame,
    /// No frame yet: pad this buffer with silence and keep playing.
    Underrun,
    /// The stream is over: pad with silence and stop playing.
    Finish,
    /// The producer vanished while running: record the error and stop.
    FinishWithError,
}

/// Decides the callback's move: an empty queue ends playback only once the
/// producer has stopped; a dropped queue ends it, as an error if the
/// producer was still running.
pub fn refill_step(poll: FramePoll, state: ProducerState) -> (step: RefillStep)
    ensures
        step == (match poll {
            FramePoll::Frame => RefillStep::UseFrame,
            FramePoll::Empty => if state == ProducerState::Running {
                RefillStep::Underrun
            } else {
                RefillStep::Finish
            },
            FramePoll::Disconnected => if state == ProducerState::Running {
                RefillStep::FinishWithError
            } else {
                RefillStep::Finish
            },
        }),
{
    match poll {
        FramePoll::Frame => RefillStep::UseFrame,
        FramePoll::Empty => match state {
            ProducerState::Running => RefillStep::Underrun,
            _ => RefillStep::Finish,
        },
        FramePoll::Disconnected => match state {
            ProducerState::Running => RefillStep::FinishWithError,
            _ => RefillStep::Finish,
        },
    }
}

/// The result of a finished playback: an error seen by the output callback
/// comes first, then a producer failure; otherwise playback succeeded.
pub fn playback_result(
    callback_error: Option<String>,
    state: ProducerState,
    recorded: Option<String>,
) -> (result: Result<(), String>)
    ensures
        match callback_error {
            Some(e) => result == Err::<(), String>(e),
            None => if state == ProducerState::Failed {
                result is Err && result->Err_0@ == (match recorded {
                    Some(e) => e@,
                    None => producer_failed_text(),
                })
            } else {
                result == Ok::<(), String>(())
            },
        },
{
    match callback_error {
        Some(e) => Err(e),
        None => match state {
            ProducerState::Failed => Err(producer_failure_message(recorded)),
            _ => Ok(()),
        },
    }
}

/// The decoded samples forwarded to the output: the first `n_samples`
/// samples of the decode buffer, or nothing when the decoder produced none.
pub fn decoded_frame<T: Copy>(decoded: &[T], n_samples: usize) -> (frame: Option<Vec<T>>)
    requires
        n_samples <= decoded@.len(),
    ensures
        n_samples == 0 ==> frame is None,
        n_samples > 0 ==> frame is Some && frame->Some_0@ == decoded@.subrange(0, n_samples as int),
{
    if n_samples == 0 {
        return None;
    }
    let mut frame: Vec<T> = Vec::new();
    let mut i: usize = 0;
    while i < n_samples
        invariant
            i <= n_samples <= decoded@.len(),
            frame@ == decoded@.subrange(0, i as int),
        decreases n_samples - i,
    {
        frame.push(decoded[i]);
        i = i + 1;
        assert(frame@ =~= decoded@.subrange(0, i as int));
    }
    Some(frame)
}

} // verus!
