use vstd::prelude::*;
use crate::playback_flow::{stored_error, store_error_once};

verus! {

/// Characters a clip name may keep: ASCII letters, digits, `-` and `_`.
pub open spec fn is_stem_char(c: char) -> bool {
    ||| 'a' <= c <= 'z'
    ||| 'A' <= c <= 'Z'
    ||| '0' <= c <= '9'
    ||| c == '-'
    ||| c == '_'
}

/// `c`, or `-` in place of a character a clip name may not hold.
pub open spec fn stem_char(c: char) -> char {
    if is_stem_char(c) {
        c
    } else {
        '-'
    }
}

/// `s` without its leading dashes.
pub open spec fn trim_leading_dashes(s: Seq<char>) -> Seq<char>
    decreases s.len(),
{
    if s.len() > 0 && s[0] == '-' {
        trim_leading_dashes(s.drop_first())
    } else {
        s
    }
}

/// `s` without its trailing dashes.
pub open spec fn trim_trailing_dashes(s: Seq<char>) -> Seq<char>
    decreases s.len(),
{
    if s.len() > 0 && s.last() == '-' {
        trim_trailing_dashes(s.drop_last())
    } else {
        s
    }
}

/// The name used when a requested stem leaves nothing: "voice-note".
pub open spec fn default_stem() -> Seq<char> {
    seq!['v', 'o', 'i', 'c', 'e', '-', 'n', 'o', 't', 'e']
}

/// The clip stem made from a requested one: every character outside
/// `[A-Za-z0-9_-]` becomes `-`, dashes are trimmed from both ends, and an
/// empty result falls back to [`default_stem`].
pub open spec fn sanitized_stem(stem: Seq<char>) -> Seq<char> {
    let trimmed = trim_trailing_dashes(trim_leading_dashes(stem.map_values(|c: char| stem_char(c))));
    if trimmed.len() == 0 {
        default_stem()
    } else {
        trimmed
    }
}

/// `String::push` (std): appends `ch` to the end of the string. The contract
/// claims just that: the string's characters afterwards are its characters
/// before, followed by `ch`.
pub assume_specification[ String::push ](s: &mut String, ch: char)
    ensures
        final(s)@ == old(s)@.push(ch),
;

/// The characters of `s`, in order.
pub fn chars_of(s: &str) -> (chars: Vec<char>)
    ensures
        chars@ == s@,
{
    let n = s.unicode_len();
    let mut chars: Vec<char> = Vec::new();
    let mut i: usize = 0;
    while i < n
        invariant
            n == s@.len(),
            i <= n,
            chars@ == s@.subrange(0, i as int),
        decreases n - i,
    {
        chars.push(s.get_char(i));
        i = i + 1;
        assert(chars@ =~= s@.subrange(0, i as int));
    }
    assert(s@.subrange(0, n as int) =~= s@);
    chars
}

/// A `String` holding `chars[from..to]`.
fn string_from_chars(chars: &Vec<char>, from: usize, to: usize) -> (s: String)
    requires
        from <= to <= chars@.len(),
    ensures
        s@ == chars@.subrange(from as int, to as int),
{
    let mut s = String::new();
    let mut i = from;
    while i < to
        invariant
            from <= i <= to,
            to <= chars@.len(),
            s@ == chars@.subrange(from as int, i as int),
        decreases to - i,
    {
        s.push(chars[i]);
        i = i + 1;
        assert(s@ =~= chars@.subrange(from as int, i as int));
    }
    s
}

fn default_stem_string() -> (s: String)
    ensures
        s@ == default_stem(),
{
    let s = String::from_str("voice-note");
    proof {
        reveal_strlit("voice-note");
    }
    assert(s@ =~= default_stem());
    s
}

proof fn lemma_trim_leading_prefix(s: Seq<char>, i: int)
    requires
        0 <= i <= s.len(),
        forall|k: int| 0 <= k < i ==> s[k] == '-',
    ensures
        trim_leading_dashes(s) == trim_leading_dashes(s.subrange(i, s.len() as int)),
    decreases i,
{
    if i > 0 {
        assert(s.drop_first().subrange(i - 1, s.drop_first().len() as int) =~= s.subrange(
            i,
            s.len() as int,
        ));
        lemma_trim_leading_prefix(s.drop_first(), i - 1);
    } else {
        assert(s.subrange(0, s.len() as int) =~= s);
    }
}

proof fn lemma_trim_trailing_suffix(s: Seq<char>, j: int)
    requires
        0 <= j <= s.len(),
        forall|k: int| j <= k < s.len() ==> s[k] == '-',
    ensures
        trim_trailing_dashes(s) == trim_trailing_dashes(s.subrange(0, j)),
    decreases s.len() - j,
{
    if j < s.len() {
        assert(s.drop_last().subrange(0, j) =~= s.subrange(0, j));
        lemma_trim_trailing_suffix(s.drop_last(), j);
    } else {
        assert(s.subrange(0, j) =~= s);
    }
}

/// Turns a requested clip name into a safe file stem (see [`sanitized_stem`]).
pub fn sanitize_stem(stem: &str) -> (sanitized: String)
    ensures
        sanitized@ == sanitized_stem(stem@),
{
    let input = chars_of(stem);
    let mut mapped: Vec<char> = Vec::new();
    let mut i: usize = 0;
    while i < input.len()
        invariant
            i <= input@.len(),
            mapped@ == input@.subrange(0, i as int).map_values(|c: char| stem_char(c)),
        decreases input@.len() - i,
    {
        let c = input[i];
        let safe = if ('a' <= c && c <= 'z') || ('A' <= c && c <= 'Z') || ('0' <= c && c <= '9')
            || c == '-' || c == '_' {
            c
        } else {
            '-'
        };
        mapped.push(safe);
        i = i + 1;
        assert(mapped@ =~= input@.subrange(0, i as int).map_values(|c: char| stem_char(c)));
    }
    let ghost full = stem@.map_values(|c: char| stem_char(c));
    assert(input@.subrange(0, input@.len() as int) =~= input@);
    assert(mapped@ =~= full);
    let mut start: usize = 0;
    while start < mapped.len() && mapped[start] == '-'
        invariant
            start <= mapped@.len(),
            forall|k: int| 0 <= k < start ==> mapped@[k] == '-',
        decreases mapped@.len() - start,
    {
        start = start + 1;
    }
    proof {
        lemma_trim_leading_prefix(mapped@, start as int);
    }
    let ghost after_start = mapped@.subrange(start as int, mapped@.len() as int);
    assert(trim_leading_dashes(after_start) == after_start);
    let mut end: usize = mapped.len();
    while end > start && mapped[end - 1] == '-'
        invariant
            start <= end <= mapped@.len(),
            forall|k: int| end <= k < mapped@.len() ==> mapped@[k] == '-',
        decreases end - start,
    {
        end = end - 1;
    }
    proof {
        let t = end - start;
        assert forall|k: int| t <= k < after_start.len() implies after_start[k] == '-' by {
            assert(after_start[k] == mapped@[start + k]);
        }
        lemma_trim_trailing_suffix(after_start, t as int);
        let kept = after_start.subrange(0, t as int);
        assert(kept =~= mapped@.subrange(start as int, end as int));
        if t > 0 {
            assert(kept.last() == mapped@[end - 1]);
        }
        assert(trim_trailing_dashes(kept) == kept);
    }
    if start == end {
        default_stem_string()
    } else {
        string_from_chars(&mapped, start, end)
    }
}


proof fn lemma_trim_leading_shape(s: Seq<char>)
    ensures
        trim_leading_dashes(s).len() <= s.len(),
        forall|i: int|
            0 <= i < trim_leading_dashes(s).len() ==> #[trigger] trim_leading_dashes(s)[i] == s[s.len()
                - trim_leading_dashes(s).len() + i],
        trim_leading_dashes(s).len() > 0 ==> trim_leading_dashes(s)[0] != '-',
    decreases s.len(),
{
    if s.len() > 0 && s[0] == '-' {
        lemma_trim_leading_shape(s.drop_first());
    }
}

proof fn lemma_trim_trailing_shape(s: Seq<char>)
    ensures
        trim_trailing_dashes(s).len() <= s.len(),
        forall|i: int|
            0 <= i < trim_trailing_dashes(s).len() ==> #[trigger] trim_trailing_dashes(s)[i] == s[i],
        trim_trailing_dashes(s).len() > 0 ==> trim_trailing_dashes(s).last() != '-',
    decreases s.len(),
{
    if s.len() > 0 && s.last() == '-' {
        lemma_trim_trailing_shape(s.drop_last());
    }
}

/// Law: a sanitized stem is never empty, holds only `[A-Za-z0-9_-]`
/// (in particular no path separator and no dot, so a clip named after it
/// stays in the cache directory), and neither starts nor ends with `-`.
pub proof fn lemma_sanitized_stem_is_safe(stem: Seq<char>)
    ensures
        sanitized_stem(stem).len() > 0,
        forall|k: int|
            0 <= k < sanitized_stem(stem).len() ==> is_stem_char(#[trigger] sanitized_stem(stem)[k]),
        sanitized_stem(stem)[0] != '-',
        sanitized_stem(stem).last() != '-',
{
    let mapped = stem.map_values(|c: char| stem_char(c));
    let lead = trim_leading_dashes(mapped);
    let trimmed = trim_trailing_dashes(lead);
    lemma_trim_leading_shape(mapped);
    lemma_trim_trailing_shape(lead);
    if trimmed.len() == 0 {
        assert(sanitized_stem(stem) == default_stem());
    } else {
        assert forall|k: int| 0 <= k < trimmed.len() implies is_stem_char(#[trigger] trimmed[k]) by {
            assert(trimmed[k] == lead[k]);
            assert(lead[k] == mapped[mapped.len() - lead.len() + k]);
        }
        assert(trimmed[0] == lead[0]);
    }
}

/// Law: sanitizing is idempotent; a sanitized stem is kept as it is.
pub proof fn lemma_sanitize_stem_idempotent(stem: Seq<char>)
    ensures
        sanitized_stem(sanitized_stem(stem)) == sanitized_stem(stem),
{
    let r = sanitized_stem(stem);
    lemma_sanitized_stem_is_safe(stem);
    let mapped = r.map_values(|c: char| stem_char(c));
    assert(mapped =~= r);
    assert(trim_leading_dashes(r) == r);
    assert(trim_trailing_dashes(r) == r);
}


/// The decimal digit character for `d` in `0..=9`.
pub open spec fn digit_char(d: nat) -> char {
    (48 + d) as char
}

/// Decimal representation of `n`, without leading zeros.
pub open spec fn decimal(n: nat) -> Seq<char>
    decreases n,
{
    if n < 10 {
        seq![digit_char(n)]
    } else {
        decimal(n / 10).push(digit_char(n % 10))
    }
}

fn push_decimal(out: &mut String, n: u128)
    ensures
        final(out)@ == old(out)@ + decimal(n as nat),
    decreases n,
{
    if n >= 10 {
        push_decimal(out, n / 10);
    }
    let d = (n % 10) as u8;
    let c = (48u8 + d) as char;
    assert(c == digit_char((n % 10) as nat));
    out.push(c);
    assert(final(out)@ =~= old(out)@ + decimal(n as nat));
}

/// ".opus".
pub open spec fn opus_extension() -> Seq<char> {
    seq!['.', 'o', 'p', 'u', 's']
}

/// File name of a new clip: the sanitized stem (the default stem when none
/// is requested), a dash, the unique suffix in decimal, and ".opus".
pub open spec fn clip_file_name_spec(stem: Option<Seq<char>>, unique_suffix: nat) -> Seq<char> {
    let requested = match stem {
        Some(s) => s,
        None => default_stem(),
    };
    sanitized_stem(requested) + seq!['-'] + decimal(unique_suffix) + opus_extension()
}

/// Builds the file name of a new clip from the requested stem and a unique
/// suffix (the capture's start time in milliseconds).
pub fn clip_file_name(stem: Option<&str>, unique_suffix: u128) -> (name: String)
    ensures
        name@ == clip_file_name_spec(
            match stem {
                Some(s) => Some(s@),
                None => None,
            },
            unique_suffix as nat,
        ),
{
    let mut name = match stem {
        Some(s) => sanitize_stem(s),
        None => {
            let r = sanitize_stem("voice-note");
            proof {
                reveal_strlit("voice-note");
                assert("voice-note"@ =~= default_stem());
            }
            r
        },
    };
    name.push('-');
    push_decimal(&mut name, unique_suffix);
    name.push('.');
    name.push('o');
    name.push('p');
    name.push('u');
    name.push('s');
    proof {
        let requested = match stem {
            Some(s) => s@,
            None => default_stem(),
        };
        assert(name@ =~= sanitized_stem(requested) + seq!['-'] + decimal(unique_suffix as nat)
            + opus_extension());
    }
    name
}

proof fn lemma_decimal_digits(n: nat)
    ensures
        decimal(n).len() > 0,
        forall|k: int| 0 <= k < decimal(n).len() ==> '0' <= #[trigger] decimal(n)[k] <= '9',
    decreases n,
{
    if n >= 10 {
        lemma_decimal_digits(n / 10);
        assert forall|k: int| 0 <= k < decimal(n).len() implies '0' <= #[trigger] decimal(n)[k]
            <= '9' by {
            if k < decimal(n / 10).len() {
                assert(decimal(n)[k] == decimal(n / 10)[k]);
            }
        }
    }
}

/// Law: a clip file name ends in ".opus" and everything before that
/// extension is made of `[A-Za-z0-9_-]`, so it holds no path separator and
/// no other dot: joined to the cache directory it names a file directly
/// inside it.
pub proof fn lemma_clip_file_name_stays_in_directory(stem: Option<Seq<char>>, unique_suffix: nat)
    ensures
        ({
            let name = clip_file_name_spec(stem, unique_suffix);
            &&& name.len() > 5
            &&& name.subrange(name.len() - 5, name.len() as int) == opus_extension()
            &&& forall|k: int| 0 <= k < name.len() - 5 ==> is_stem_char(#[trigger] name[k])
        }),
{
    let requested = match stem {
        Some(s) => s,
        None => default_stem(),
    };
    let base = sanitized_stem(requested);
    lemma_sanitized_stem_is_safe(requested);
    lemma_decimal_digits(unique_suffix);
    let digits = decimal(unique_suffix);
    let name = clip_file_name_spec(stem, unique_suffix);
    assert(name == base + seq!['-'] + digits + opus_extension());
    assert(name.subrange(name.len() - 5, name.len() as int) =~= opus_extension());
    assert forall|k: int| 0 <= k < name.len() - 5 implies is_stem_char(#[trigger] name[k]) by {
        if k < base.len() {
            assert(name[k] == base[k]);
        } else if k == base.len() {
            assert(name[k] == '-');
        } else {
            assert(name[k] == digits[k - base.len() - 1]);
        }
    }
}


/// Records a playback failure unless an earlier one is already recorded.
pub fn store_playback_error(slot: &mut Option<String>, message: String)
    ensures
        *final(slot) == stored_error(*old(slot), message),
{
    store_error_once(slot, message);
}

/// Whether two strings hold the same characters.
pub fn same_text(a: &str, b: &str) -> (same: bool)
    ensures
        same == (a@ == b@),
{
    let x = chars_of(a);
    let y = chars_of(b);
    if x.len() != y.len() {
        return false;
    }
    let mut i: usize = 0;
    while i < x.len()
        invariant
            x@ == a@,
            y@ == b@,
            x@.len() == y@.len(),
            i <= x@.len(),
            forall|k: int| 0 <= k < i ==> x@[k] == y@[k],
        decreases x@.len() - i,
    {
        if x[i] != y[i] {
            assert(x@[i as int] != y@[i as int]);
            return false;
        }
        i = i + 1;
    }
    assert(x@ =~= y@);
    true
}

/// "recording cancelled".
pub open spec fn cancelled_text() -> Seq<char> {
    "recording cancelled"@
}

/// "failed to join capture thread".
pub open spec fn capture_join_failed_text() -> Seq<char> {
    "failed to join capture thread"@
}

/// The error a capture thread ends with when its capture was cancelled.
pub fn cancelled_message() -> (message: String)
    ensures
        message@ == cancelled_text(),
{
    String::from_str("recording cancelled")
}

/// How a capture thread ended, as seen when joining it.
pub enum CaptureJoin<C> {
    /// The thread returned a clip or an error.
    Finished(Result<C, String>),
    /// The thread panicked.
    Panicked,
}

/// The result of stopping a capture: what the thread returned, or an error
/// when it panicked.
pub fn stop_capture_result<C>(join: CaptureJoin<C>) -> (result: Result<C, String>)
    ensures
        match join {
            CaptureJoin::Finished(r) => result == r,
            CaptureJoin::Panicked => result is Err && result->Err_0@ == capture_join_failed_text(),
        },
{
    match join {
        CaptureJoin::Finished(r) => r,
        CaptureJoin::Panicked => Err(String::from_str("failed to join capture thread")),
    }
}

/// What cancelling a capture comes to.
pub enum CancelOutcome<C> {
    /// The capture finished before the cancel took effect: its clip must be
    /// deleted; the cancel succeeded.
    DiscardClip(C),
    /// The capture stopped as cancelled; the cancel succeeded.
    Cancelled,
    /// The capture failed otherwise; the cancel reports this error.
    Failed(String),
}

/// Decides what cancelling a capture comes to from how its thread ended.
pub fn cancel_capture_outcome<C>(join: CaptureJoin<C>) -> (outcome: CancelOutcome<C>)
    ensures
        match join {
            CaptureJoin::Finished(Ok(clip)) => outcome == CancelOutcome::DiscardClip(clip),
            CaptureJoin::Finished(Err(e)) => if e@ == cancelled_text() {
                outcome == CancelOutcome::<C>::Cancelled
            } else {
                outcome == CancelOutcome::<C>::Failed(e)
            },
            CaptureJoin::Panicked => outcome is Failed && outcome->Failed_0@
                == capture_join_failed_text(),
        },
{
    match join {
        CaptureJoin::Finished(Ok(clip)) => CancelOutcome::DiscardClip(clip),
        CaptureJoin::Finished(Err(e)) => {
            if same_text(e.as_str(), "recording cancelled") {
                CancelOutcome::Cancelled
            } else {
                CancelOutcome::Failed(e)
            }
        },
        CaptureJoin::Panicked => CancelOutcome::Failed(
            String::from_str("failed to join capture thread"),
        ),
    }
}

/// A request to the voice-note engine that a running capture may refuse.
#[derive(Clone, Copy, PartialEq, Eq, Structural, Debug)]
pub enum EngineRequest {
    StartCapture,
    PlayClip,
}

/// "capture is already active".
pub open spec fn capture_already_active_text() -> Seq<char> {
    "capture is already active"@
}

/// "capture is active".
pub open spec fn capture_active_text() -> Seq<char> {
    "capture is active"@
}

/// Admits `request` exactly when no capture is running: a second capture is
/// refused, and so is playback during a capture.
pub fn admit_request(request: EngineRequest, capturing: bool) -> (admitted: Result<(), String>)
    ensures
        !capturing ==> admitted == Ok::<(), String>(()),
        capturing ==> admitted is Err && admitted->Err_0@ == (match request {
            EngineRequest::StartCapture => capture_already_active_text(),
            EngineRequest::PlayClip => capture_active_text(),
        }),
{
    if !capturing {
        return Ok(());
    }
    match request {
        EngineRequest::StartCapture => Err(String::from_str("capture is already active")),
        EngineRequest::PlayClip => Err(String::from_str("capture is active")),
    }
}


/// Law: sanitizing keeps every character in `'a'..='z'`, `'A'..='Z'`,
/// `'0'..='9'`, `'-'` or `'_'` where it stands and turns every other one into
/// `'-'`, then only trims dashes at both ends. So a stem made of those
/// characters that neither starts nor ends with `'-'` comes back unchanged,
/// and any other result (but the fallback name) is a run of the stem with
/// just the disallowed characters replaced.
pub proof fn lemma_sanitize_keeps_allowed_characters(stem: Seq<char>)
    ensures
        (stem.len() > 0 && stem[0] != '-' && stem.last() != '-' && forall|i: int|
            0 <= i < stem.len() ==> ('a' <= #[trigger] stem[i] <= 'z' || 'A' <= stem[i] <= 'Z' || '0'
                <= stem[i] <= '9' || stem[i] == '-' || stem[i] == '_')) ==> sanitized_stem(stem)
            == stem,
        sanitized_stem(stem) == default_stem() || exists|start: int|
            #![trigger stem.skip(start)]
            0 <= start && start + sanitized_stem(stem).len() <= stem.len() && forall|k: int|
                0 <= k < sanitized_stem(stem).len() ==> #[trigger] sanitized_stem(stem)[k] == (if 'a'
                    <= stem.skip(start)[k] <= 'z' || 'A' <= stem.skip(start)[k] <= 'Z' || '0'
                    <= stem.skip(start)[k] <= '9' || stem.skip(start)[k] == '-' || stem.skip(
                    start,
                )[k] == '_' {
                    stem.skip(start)[k]
                } else {
                    '-'
                }),
{
    let mapped = stem.map_values(|c: char| stem_char(c));
    let lead = trim_leading_dashes(mapped);
    let trimmed = trim_trailing_dashes(lead);
    lemma_trim_leading_shape(mapped);
    lemma_trim_trailing_shape(lead);
    if stem.len() > 0 && stem[0] != '-' && stem.last() != '-' && forall|i: int|
        0 <= i < stem.len() ==> ('a' <= #[trigger] stem[i] <= 'z' || 'A' <= stem[i] <= 'Z' || '0'
            <= stem[i] <= '9' || stem[i] == '-' || stem[i] == '_') {
        assert(mapped =~= stem);
        assert(lead == mapped);
        assert(trimmed == lead);
    }
    if trimmed.len() > 0 {
        let start = mapped.len() - lead.len();
        let tail = stem.skip(start);
        assert forall|k: int| 0 <= k < trimmed.len() implies #[trigger] trimmed[k] == (if 'a'
            <= tail[k] <= 'z' || 'A' <= tail[k] <= 'Z' || '0' <= tail[k] <= '9' || tail[k] == '-'
            || tail[k] == '_' {
            tail[k]
        } else {
            '-'
        }) by {
            assert(trimmed[k] == lead[k]);
            assert(lead[k] == mapped[start + k]);
            assert(tail[k] == stem[start + k]);
        }
        assert(sanitized_stem(stem) == trimmed);
    }
}

/// The number a string of decimal digits stands for (most significant
/// digit first).
pub open spec fn decimal_value(digits: Seq<char>) -> int
    decreases digits.len(),
{
    if digits.len() == 0 {
        0
    } else {
        decimal_value(digits.drop_last()) * 10 + (digits.last() as int - 48)
    }
}

/// Law: the decimal form of `n` is made of digits only, reads back as `n`,
/// and has no leading zero (`0` is written "0").
pub proof fn lemma_decimal_reads_back(n: nat)
    ensures
        decimal_value(decimal(n)) == n,
        forall|k: int| 0 <= k < decimal(n).len() ==> '0' <= #[trigger] decimal(n)[k] <= '9',
        n > 0 ==> decimal(n)[0] != '0',
        n == 0 ==> decimal(n) == seq!['0'],
    decreases n,
{
    lemma_decimal_digits(n);
    if n >= 10 {
        lemma_decimal_reads_back(n / 10);
        let d = decimal(n);
        assert(d.drop_last() == decimal(n / 10));
        assert(d.last() == digit_char(n % 10));
        assert(decimal_value(d) == decimal_value(decimal(n / 10)) * 10 + (n % 10));
        assert(n == (n / 10) * 10 + n % 10);
        assert(d[0] == decimal(n / 10)[0]);
    } else {
        let d = decimal(n);
        assert(d.drop_last() =~= Seq::<char>::empty());
        assert(decimal_value(d.drop_last()) == 0);
        assert(d.last() == digit_char(n));
        assert(digit_char(n) as int == 48 + n);
    }
}

/// Law: a clip file name is the sanitized stem, a dash, the decimal digits
/// of the unique suffix (which read back as the suffix, without leading
/// zeros) and ".opus".
pub proof fn lemma_clip_file_name_encodes_suffix(stem: Option<Seq<char>>, unique_suffix: nat)
    ensures
        ({
            let name = clip_file_name_spec(stem, unique_suffix);
            let base = sanitized_stem(
                match stem {
                    Some(s) => s,
                    None => default_stem(),
                },
            );
            let digits = name.subrange(base.len() + 1int, name.len() - 5);
            &&& name.len() >= base.len() + 7
            &&& name.subrange(0, base.len() as int) == base
            &&& name[base.len() as int] == '-'
            &&& decimal_value(digits) == unique_suffix
            &&& forall|k: int| 0 <= k < digits.len() ==> '0' <= #[trigger] digits[k] <= '9'
            &&& (unique_suffix > 0 ==> digits[0] != '0')
            &&& name.subrange(name.len() - 5, name.len() as int) == seq!['.', 'o', 'p', 'u', 's']
        }),
{
    let requested = match stem {
        Some(s) => s,
        None => default_stem(),
    };
    let base = sanitized_stem(requested);
    let digits = decimal(unique_suffix);
    lemma_decimal_reads_back(unique_suffix);
    lemma_decimal_digits(unique_suffix);
    let name = clip_file_name_spec(stem, unique_suffix);
    assert(name == base + seq!['-'] + digits + opus_extension());
    assert(name.subrange(base.len() + 1int, name.len() - 5) =~= digits);
    assert(name.subrange(0, base.len() as int) =~= base);
    assert(name.subrange(name.len() - 5, name.len() as int) =~= seq!['.', 'o', 'p', 'u', 's']);
}

} // verus!
