use vstd::prelude::*;
use crate::voice_note::chars_of;

verus! {

/// One of the operations of the recorder, each with its own flag.
#[derive(Clone, Copy, PartialEq, Eq, Structural, Debug)]
pub enum Activity {
    /// Capturing from the microphone.
    Recording,
    /// Playing processed audio (WAV or Opus).
    Playing,
    /// Playing the unprocessed WAV.
    PlayingOriginal,
    /// Playing the unprocessed Opus file.
    PlayingUnprocessedOpus,
}

/// The recorder's activity flags.
#[derive(Clone, Copy, PartialEq, Eq, Structural, Debug)]
pub struct ActivityFlags {
    pub recording: bool,
    pub playing: bool,
    pub playing_original: bool,
    pub playing_unprocessed_opus: bool,
}

/// "Another operation is already in progress".
pub open spec fn busy_text() -> Seq<char> {
    "Another operation is already in progress"@
}

/// "Not currently recording".
pub open spec fn not_recording_text() -> Seq<char> {
    "Not currently recording"@
}

impl ActivityFlags {
    /// Whether any operation is in progress.
    pub open spec fn busy(self) -> bool {
        self.recording || self.playing || self.playing_original || self.playing_unprocessed_opus
    }

    /// Number of flags set.
    pub open spec fn active_count(self) -> int {
        (if self.recording { 1int } else { 0int }) + (if self.playing { 1int } else { 0int }) + (
        if self.playing_original {
            1int
        } else {
            0int
        }) + (if self.playing_unprocessed_opus {
            1int
        } else {
            0int
        })
    }

    /// The flag of `activity`.
    pub open spec fn flag(self, activity: Activity) -> bool {
        match activity {
            Activity::Recording => self.recording,
            Activity::Playing => self.playing,
            Activity::PlayingOriginal => self.playing_original,
            Activity::PlayingUnprocessedOpus => self.playing_unprocessed_opus,
        }
    }

    /// The flags with that of `activity` set to `value`.
    pub open spec fn with_flag(self, activity: Activity, value: bool) -> ActivityFlags {
        match activity {
            Activity::Recording => ActivityFlags { recording: value, ..self },
            Activity::Playing => ActivityFlags { playing: value, ..self },
            Activity::PlayingOriginal => ActivityFlags { playing_original: value, ..self },
            Activity::PlayingUnprocessedOpus => ActivityFlags {
                playing_unprocessed_opus: value,
                ..self
            },
        }
    }

    /// No operation in progress.
    pub fn idle() -> (flags: ActivityFlags)
        ensures
            !flags.busy(),
    {
        ActivityFlags {
            recording: false,
            playing: false,
            playing_original: false,
            playing_unprocessed_opus: false,
        }
    }

    pub fn is_busy(&self) -> (busy: bool)
        ensures
            busy == self.busy(),
    {
        self.recording || self.playing || self.playing_original || self.playing_unprocessed_opus
    }

    /// Whether any kind of playback is in progress.
    pub fn is_playing(&self) -> (playing: bool)
        ensures
            playing == (self.playing || self.playing_original || self.playing_unprocessed_opus),
    {
        self.playing || self.playing_original || self.playing_unprocessed_opus
    }

    /// Starts `activity` if nothing is in progress; otherwise refuses and
    /// leaves the flags as they are.
    pub fn try_begin(&mut self, activity: Activity) -> (started: Result<(), String>)
        ensures
            !old(self).busy() ==> started == Ok::<(), String>(()) && *final(self) == old(
                self,
            ).with_flag(activity, true),
            old(self).busy() ==> started is Err && started->Err_0@ == busy_text() && *final(self)
                == *old(self),
    {
        if self.is_busy() {
            return Err(String::from_str("Another operation is already in progress"));
        }
        match activity {
            Activity::Recording => self.recording = true,
            Activity::Playing => self.playing = true,
            Activity::PlayingOriginal => self.playing_original = true,
            Activity::PlayingUnprocessedOpus => self.playing_unprocessed_opus = true,
        }
        Ok(())
    }

    /// Ends the recording if one is in progress.
    pub fn try_end_recording(&mut self) -> (stopped: Result<(), String>)
        ensures
            old(self).recording ==> stopped == Ok::<(), String>(()) && *final(self) == old(
                self,
            ).with_flag(Activity::Recording, false),
            !old(self).recording ==> stopped is Err && stopped->Err_0@ == not_recording_text()
                && *final(self) == *old(self),
    {
        if !self.recording {
            return Err(String::from_str("Not currently recording"));
        }
        self.recording = false;
        Ok(())
    }
}

/// Law: operations exclude each other. Starting one succeeds exactly when
/// none is in progress, and then exactly its own flag is set; since other
/// code only ever clears flags, at most one flag is ever set.
pub proof fn lemma_one_activity_at_a_time(flags: ActivityFlags, which: Activity)
    ensures
        !flags.busy() ==> flags.with_flag(which, true).active_count() == 1 && flags.with_flag(
            which,
            true,
        ).flag(which),
        flags.active_count() <= 1 ==> (if flags.busy() {
            flags
        } else {
            flags.with_flag(which, true)
        }).active_count() <= 1,
        flags.active_count() <= 1 ==> flags.with_flag(which, false).active_count() <= 1,
{
}

/// ".wav".
pub open spec fn wav_extension() -> Seq<char> {
    seq!['.', 'w', 'a', 'v']
}

/// `path` with every trailing ".wav" removed.
pub open spec fn strip_wav(path: Seq<char>) -> Seq<char>
    decreases path.len(),
{
    if path.len() >= 4 && path.subrange(path.len() - 4, path.len() as int) == wav_extension() {
        strip_wav(path.subrange(0, path.len() - 4))
    } else {
        path
    }
}

/// The files a recording made at `output_path` leads to.
pub struct RecordingPaths {
    /// Copy of the unprocessed recording.
    pub original_wav: String,
    /// The processed recording.
    pub processed_wav: String,
    /// The processed recording, Opus-encoded.
    pub processed_opus: String,
    /// The unprocessed recording, Opus-encoded.
    pub unprocessed_opus: String,
}

/// `k` copies of ".wav".
pub open spec fn wav_run(k: nat) -> Seq<char>
    decreases k,
{
    if k == 0 {
        Seq::empty()
    } else {
        wav_run((k - 1) as nat) + wav_extension()
    }
}

proof fn lemma_wav_run_prepend(k: nat)
    ensures
        wav_extension() + wav_run(k) == wav_run(k + 1),
    decreases k,
{
    if k == 0 {
        assert(wav_extension() + wav_run(0) =~= wav_run(1));
    } else {
        lemma_wav_run_prepend((k - 1) as nat);
        assert(wav_extension() + wav_run(k) =~= (wav_extension() + wav_run((k - 1) as nat))
            + wav_extension());
    }
}

proof fn lemma_strip_wav_run(s: Seq<char>, k: nat)
    ensures
        strip_wav(s + wav_run(k)) == strip_wav(s),
    decreases k,
{
    if k == 0 {
        assert(s + wav_run(k) =~= s);
    } else {
        let t = s + wav_run((k - 1) as nat);
        let u = s + wav_run(k);
        assert(u =~= t + wav_extension());
        assert(u.subrange(u.len() - 4, u.len() as int) =~= wav_extension());
        assert(u.subrange(0, u.len() - 4) =~= t);
        lemma_strip_wav_run(s, (k - 1) as nat);
    }
}

fn ends_with_wav(chars: &Vec<char>, end: usize) -> (found: bool)
    requires
        end <= chars@.len(),
    ensures
        found == (end >= 4 && chars@.subrange(end - 4, end as int) == wav_extension()),
{
    if end < 4 {
        return false;
    }
    let found = chars[end - 4] == '.' && chars[end - 3] == 'w' && chars[end - 2] == 'a' && chars[end
        - 1] == 'v';
    if found {
        assert(chars@.subrange(end - 4, end as int) =~= wav_extension());
    } else {
        assert(chars@.subrange(end - 4, end as int)[0] == chars@[end - 4]);
        assert(chars@.subrange(end - 4, end as int)[1] == chars@[end - 3]);
        assert(chars@.subrange(end - 4, end as int)[2] == chars@[end - 2]);
        assert(chars@.subrange(end - 4, end as int)[3] == chars@[end - 1]);
    }
    found
}

/// `path` with every trailing ".wav" removed, as characters.
fn stripped_wav_chars(path: &str) -> (stem: Vec<char>)
    ensures
        stem@ == strip_wav(path@),
{
    let chars = chars_of(path);
    let mut end = chars.len();
    let ghost mut runs: nat = 0;
    assert(chars@.subrange(0, end as int) + wav_run(0) =~= chars@);
    while ends_with_wav(&chars, end)
        invariant
            end <= chars@.len(),
            chars@ == path@,
            chars@.subrange(0, end as int) + wav_run(runs) == chars@,
        decreases end,
    {
        proof {
            let head = chars@.subrange(0, end - 4);
            assert(chars@.subrange(0, end as int) =~= head + wav_extension()) by {
                assert(chars@.subrange(end - 4, end as int) == wav_extension());
                assert forall|j: int| 0 <= j < end implies chars@.subrange(0, end as int)[j] == (head
                    + wav_extension())[j] by {
                    if j >= end - 4 {
                        assert(chars@[j] == chars@.subrange(end - 4, end as int)[j - (end - 4)]);
                    }
                }
            }
            lemma_wav_run_prepend(runs);
            assert(head + wav_run(runs + 1) =~= head + wav_extension() + wav_run(runs));
            runs = runs + 1;
        }
        end = end - 4;
    }
    proof {
        lemma_strip_wav_run(chars@.subrange(0, end as int), runs);
        let s = chars@.subrange(0, end as int);
        assert(s.len() >= 4 ==> s.subrange(s.len() - 4, s.len() as int) =~= chars@.subrange(
            end - 4,
            end as int,
        ));
    }
    let mut stem: Vec<char> = Vec::new();
    let mut i: usize = 0;
    while i < end
        invariant
            i <= end <= chars@.len(),
            stem@ == chars@.subrange(0, i as int),
        decreases end - i,
    {
        stem.push(chars[i]);
        i = i + 1;
        assert(stem@ =~= chars@.subrange(0, i as int));
    }
    stem
}

fn string_with_suffix(stem: &Vec<char>, suffix: &str) -> (s: String)
    ensures
        s@ == stem@ + suffix@,
{
    let mut s = String::new();
    let mut i: usize = 0;
    while i < stem.len()
        invariant
            i <= stem@.len(),
            s@ == stem@.subrange(0, i as int),
        decreases stem@.len() - i,
    {
        s.push(stem[i]);
        i = i + 1;
        assert(s@ =~= stem@.subrange(0, i as int));
    }
    assert(stem@.subrange(0, i as int) =~= stem@);
    s.append(suffix);
    s
}

/// The paths derived from a recording's output path: every trailing ".wav"
/// is removed and a fixed suffix appended.
pub fn recording_paths(output_path: &str) -> (paths: RecordingPaths)
    ensures
        paths.original_wav@ == strip_wav(output_path@) + "_original.wav"@,
        paths.processed_wav@ == strip_wav(output_path@) + "_processed.wav"@,
        paths.processed_opus@ == strip_wav(output_path@) + "_processed.opus"@,
        paths.unprocessed_opus@ == strip_wav(output_path@) + "_unprocessed.opus"@,
{
    let stem = stripped_wav_chars(output_path);
    RecordingPaths {
        original_wav: string_with_suffix(&stem, "_original.wav"),
        processed_wav: string_with_suffix(&stem, "_processed.wav"),
        processed_opus: string_with_suffix(&stem, "_processed.opus"),
        unprocessed_opus: string_with_suffix(&stem, "_unprocessed.opus"),
    }
}


/// Law: the files of a recording never collide: the four derived paths are
/// pairwise distinct, and the copy of the original never overwrites the
/// recording it is copied from.
pub proof fn lemma_recording_paths_distinct(output_path: Seq<char>)
    ensures
        ({
            let stem = strip_wav(output_path);
            let original = stem + "_original.wav"@;
            let processed = stem + "_processed.wav"@;
            let processed_opus = stem + "_processed.opus"@;
            let unprocessed_opus = stem + "_unprocessed.opus"@;
            &&& original != output_path
            &&& original != processed
            &&& original != processed_opus
            &&& original != unprocessed_opus
            &&& processed != processed_opus
            &&& processed != unprocessed_opus
            &&& processed_opus != unprocessed_opus
        }),
{
    reveal_strlit("_original.wav");
    reveal_strlit("_processed.wav");
    reveal_strlit("_processed.opus");
    reveal_strlit("_unprocessed.opus");
    let stem = strip_wav(output_path);
    let original = stem + "_original.wav"@;
    assert(original.len() == stem.len() + 13);
    assert((stem + "_processed.wav"@).len() == stem.len() + 14);
    assert((stem + "_processed.opus"@).len() == stem.len() + 15);
    assert((stem + "_unprocessed.opus"@).len() == stem.len() + 17);
    if original == output_path {
        let n = output_path.len();
        assert(output_path.subrange(n - 4, n as int) =~= wav_extension()) by {
            assert forall|j: int| 0 <= j < 4 implies output_path[n - 4 + j] == wav_extension()[j] by {
                assert(output_path[n - 4 + j] == "_original.wav"@[9 + j]);
            }
        }
        let shorter = output_path.subrange(0, n - 4);
        assert(strip_wav(output_path) == strip_wav(shorter));
        assert(shorter =~= stem + "_original"@) by {
            reveal_strlit("_original");
            assert forall|j: int| 0 <= j < shorter.len() implies shorter[j] == (stem
                + "_original"@)[j] by {
                assert(shorter[j] == original[j]);
            }
        }
        reveal_strlit("_original");
        let m = shorter.len();
        assert(shorter[m - 1] == 'l');
        assert(shorter.subrange(m - 4, m as int)[3] == 'l');
        assert(shorter.subrange(m - 4, m as int) != wav_extension());
        assert(strip_wav(shorter) == shorter);
        assert(stem.len() == stem.len() + 9);
    }
}

} // verus!
