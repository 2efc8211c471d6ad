use vstd::prelude::*;
use vstd::arithmetic::div_mod::lemma_fundamental_div_mod_converse;
use vstd::arithmetic::mul::lemma_mul_inequality;

verus! {

/// Number of frame samples `copy_frame_to_output` moves into an output buffer
/// of `data_len` slots with `channels` channels, when the frame has
/// `frame_len` samples and the first unplayed one is at `position`.
pub open spec fn samples_to_copy(data_len: int, channels: int, frame_len: int, position: int) -> int {
    if frame_len <= position {
        0
    } else if data_len / channels <= frame_len - position {
        data_len / channels
    } else {
        frame_len - position
    }
}

/// The output buffer after copying: slot `j` of the first `count * channels`
/// slots holds frame sample `position + j / channels` (every channel of an
/// output frame carries the same mono sample); the other slots are kept.
pub open spec fn spread_frame<T>(
    data: Seq<T>,
    channels: int,
    frame: Seq<T>,
    position: int,
    count: int,
) -> Seq<T> {
    Seq::new(
        data.len(),
        |j: int|
            if j < count * channels {
                frame[position + j / channels]
            } else {
                data[j]
            },
    )
}

proof fn lemma_block_index(i: int, c: int, channels: int)
    requires
        0 <= i,
        0 <= c < channels,
    ensures
        (i * channels + c) / channels == i,
{
    lemma_fundamental_div_mod_converse(i * channels + c, channels, i, c);
}

/// Law: copying stays in bounds: it never writes past the output buffer,
/// never reads past the frame, and the read position only moves forward.
pub proof fn lemma_copy_stays_in_bounds(data_len: int, channels: int, frame_len: int, position: int)
    requires
        data_len >= 0,
        channels > 0,
        frame_len >= 0,
        position >= 0,
    ensures
        0 <= samples_to_copy(data_len, channels, frame_len, position),
        samples_to_copy(data_len, channels, frame_len, position) * channels <= data_len,
        position < frame_len ==> position + samples_to_copy(data_len, channels, frame_len, position)
            <= frame_len,
{
    let count = samples_to_copy(data_len, channels, frame_len, position);
    assert((data_len / channels) * channels <= data_len) by (nonlinear_arith)
        requires
            channels > 0,
            data_len >= 0,
    ;
    assert(data_len / channels >= 0) by (nonlinear_arith)
        requires
            channels > 0,
            data_len >= 0,
    ;
    if count > 0 {
        lemma_mul_inequality(count, data_len / channels, channels);
    }
}

/// Copies mono samples of `frame`, starting at `*frame_position`, into the
/// interleaved buffer `data` with `channels` channels, each sample repeated
/// on every channel. Returns the number of buffer slots written and advances
/// `*frame_position` past the copied samples.
pub fn copy_frame_to_output<T: Copy>(
    data: &mut [T],
    channels: usize,
    frame: &[T],
    frame_position: &mut usize,
) -> (copied: usize)
    requires
        *old(frame_position) < frame@.len() ==> channels > 0,
    ensures
        ({
            let count = samples_to_copy(
                old(data)@.len() as int,
                channels as int,
                frame@.len() as int,
                *old(frame_position) as int,
            );
            &&& copied == count * channels
            &&& *final(frame_position) == *old(frame_position) + count
            &&& final(data)@ == spread_frame(
                old(data)@,
                channels as int,
                frame@,
                *old(frame_position) as int,
                count,
            )
        }),
{
    let ghost data0 = data@;
    let position = *frame_position;
    if frame.len() <= position {
        assert(data@ =~= spread_frame(data0, channels as int, frame@, position as int, 0));
        return 0;
    }
    let remaining = frame.len() - position;
    let per_channel = data.len() / channels;
    let count = if per_channel <= remaining {
        per_channel
    } else {
        remaining
    };
    proof {
        let len = data.len() as int;
        let ch = channels as int;
        assert((len / ch) * ch <= len) by (nonlinear_arith)
            requires
                ch > 0,
                len >= 0,
        ;
        lemma_mul_inequality(count as int, per_channel as int, channels as int);
    }
    let mut i: usize = 0;
    while i < count
        invariant
            0 <= i <= count,
            count <= per_channel,
            count <= remaining,
            remaining == frame@.len() - position,
            position + remaining == frame@.len(),
            frame@.len() <= usize::MAX,
            data0.len() <= usize::MAX,
            per_channel == (data0.len() as int) / (channels as int),
            count * channels <= data0.len(),
            channels > 0,
            data@.len() == data0.len(),
            forall|j: int|
                0 <= j < i * channels ==> #[trigger] data@[j] == frame@[position + j / (
                channels as int)],
            forall|j: int| i * channels <= j < data0.len() ==> #[trigger] data@[j] == data0[j],
        decreases count - i,
    {
        let sample = frame[position + i];
        proof {
            lemma_mul_inequality(i as int + 1, count as int, channels as int);
        }
        proof {
            assert((i + 1) * channels == i * channels + channels) by (nonlinear_arith);
        }
        let mut c: usize = 0;
        while c < channels
            invariant
                0 <= i < count,
                0 <= c <= channels,
                (i + 1) * channels <= data0.len(),
                i * channels + channels == (i + 1) * channels,
                data0.len() <= usize::MAX,
                channels > 0,
                data@.len() == data0.len(),
                sample == frame@[position + i],
                forall|j: int|
                    0 <= j < i * channels + c ==> #[trigger] data@[j] == frame@[position + j / (
                    channels as int)],
                forall|j: int| i * channels + c <= j < data0.len() ==> #[trigger] data@[j] == data0[j],
            decreases channels - c,
        {
            proof {
                lemma_block_index(i as int, c as int, channels as int);
            }
            data[i * channels + c] = sample;
            c = c + 1;
        }
        proof {
            assert((i + 1) * channels == i * channels + channels) by (nonlinear_arith);
        }
        i = i + 1;
    }
    *frame_position = position + count;
    assert(data@ =~= spread_frame(data0, channels as int, frame@, position as int, count as int));
    count * channels
}


/// Interleaved samples reduced to one channel: for two channels the left
/// channel (the first sample of every pair, a lone trailing sample counting
/// as a pair); any other layout is kept as it is.
pub open spec fn left_channel<T>(samples: Seq<T>, channels: u16) -> Seq<T> {
    if channels == 2 {
        Seq::new(((samples.len() + 1) / 2) as nat, |i: int| samples[2 * i])
    } else {
        samples
    }
}

/// Reduces interleaved audio to mono by keeping the left channel of a
/// stereo stream; other channel counts pass through unchanged.
pub fn mono_left_channel<T: Copy>(samples: &[T], channels: u16) -> (mono: Vec<T>)
    ensures
        mono@ == left_channel(samples@, channels),
{
    let mut mono: Vec<T> = Vec::new();
    if channels == 2 {
        let pairs = samples.len() / 2 + samples.len() % 2;
        let mut k: usize = 0;
        while k < pairs
            invariant
                pairs == (samples@.len() + 1) / 2,
                samples@.len() <= usize::MAX,
                k <= pairs,
                mono@.len() == k,
                forall|m: int| 0 <= m < k ==> #[trigger] mono@[m] == samples@[2 * m],
            decreases pairs - k,
        {
            mono.push(samples[2 * k]);
            k = k + 1;
        }
        assert(mono@ =~= left_channel(samples@, channels));
    } else {
        let mut i: usize = 0;
        while i < samples.len()
            invariant
                i <= samples@.len(),
                mono@ =~= samples@.subrange(0, i as int),
            decreases samples@.len() - i,
        {
            mono.push(samples[i]);
            i = i + 1;
        }
        assert(mono@ =~= left_channel(samples@, channels));
    }
    mono
}

/// An unsigned 16-bit sample read as a signed one (two's complement).
pub open spec fn wrap_to_i16(sample: u16) -> int {
    if sample < 32768 {
        sample as int
    } else {
        sample - 65536
    }
}

/// Converts an unsigned 16-bit input sample the way the recorder does:
/// reinterpret the bits as `i16`, then subtract `i16::MAX`. The subtraction
/// overflows, and so is excluded, for the inputs `32768..=65534`.
pub fn u16_sample_to_i16(sample: u16) -> (r: i16)
    requires
        wrap_to_i16(sample) - 32767 >= -32768,
    ensures
        r == wrap_to_i16(sample) - 32767,
{
    let reinterpreted = sample as i16;
    assert(reinterpreted == wrap_to_i16(sample)) by (bit_vector)
        requires
            reinterpreted == sample as i16,
    ;
    reinterpreted - i16::MAX
}

/// What one output frame of WAV playback became.
#[derive(Clone, Copy, PartialEq, Eq, Structural, Debug)]
pub enum FrameFill {
    /// Samples were copied and the read position advanced.
    Played,
    /// Playback is paused or stopped: the frame was filled with silence.
    Silenced,
    /// The clip is exhausted: the frame was filled with silence and playback
    /// should stop.
    Finished,
}

/// End (exclusive) of the output frame that starts at `start`.
pub open spec fn frame_end(start: int, out_channels: int, len: int) -> int {
    if start + out_channels <= len {
        start + out_channels
    } else {
        len
    }
}

/// The sample written to slot `k` of an output frame while playing from read
/// position `index`: input channel `k % in_channels` of the current input
/// frame, or silence past the end of the clip.
pub open spec fn routed_sample<T>(samples: Seq<T>, index: int, in_channels: int, k: int, silence: T) -> T {
    if index + k % in_channels < samples.len() {
        samples[index + k % in_channels]
    } else {
        silence
    }
}

/// Fills the output frame `data[start..start + out_channels]` (cut at the end
/// of `data`) from the interleaved clip `samples` at read position `*index`.
/// A paused or finished stream gets silence; otherwise every output slot `k`
/// takes input channel `k % in_channels` and the read position advances by
/// one input frame.
pub fn fill_playback_frame<T: Copy>(
    data: &mut [T],
    start: usize,
    out_channels: usize,
    samples: &[T],
    in_channels: usize,
    index: &mut usize,
    playing: bool,
    silence: T,
) -> (fill: FrameFill)
    requires
        start < old(data)@.len(),
        out_channels > 0,
        playing && *old(index) < samples@.len() ==> in_channels > 0 && *old(index) + in_channels
            <= usize::MAX,
    ensures
        final(data)@.len() == old(data)@.len(),
        ({
            let end = frame_end(start as int, out_channels as int, old(data)@.len() as int);
            &&& forall|j: int|
                0 <= j < old(data)@.len() && !(start <= j < end) ==> #[trigger] final(data)@[j]
                    == old(data)@[j]
            &&& if !playing || *old(index) >= samples@.len() {
                &&& fill == (if *old(index) >= samples@.len() {
                    FrameFill::Finished
                } else {
                    FrameFill::Silenced
                })
                &&& *final(index) == *old(index)
                &&& forall|j: int| start <= j < end ==> #[trigger] final(data)@[j] == silence
            } else {
                &&& fill == FrameFill::Played
                &&& *final(index) == *old(index) + in_channels
                &&& forall|j: int|
                    start <= j < end ==> #[trigger] final(data)@[j] == routed_sample(
                        samples@,
                        *old(index) as int,
                        in_channels as int,
                        j - start,
                        silence,
                    )
            }
        }),
{
    let ghost data0 = data@;
    let end = if data.len() - start >= out_channels {
        start + out_channels
    } else {
        data.len()
    };
    let position = *index;
    if !playing || position >= samples.len() {
        let mut j = start;
        while j < end
            invariant
                start <= j <= end,
                end <= data0.len(),
                data@.len() == data0.len(),
                forall|m: int| start <= m < j ==> #[trigger] data@[m] == silence,
                forall|m: int| 0 <= m < data0.len() && !(start <= m < j) ==> #[trigger] data@[m] == data0[m],
            decreases end - j,
        {
            data[j] = silence;
            j = j + 1;
        }
        if position >= samples.len() {
            FrameFill::Finished
        } else {
            FrameFill::Silenced
        }
    } else {
        let mut j = start;
        while j < end
            invariant
                start <= j <= end,
                end <= data0.len(),
                data@.len() == data0.len(),
                in_channels > 0,
                position < samples@.len(),
                position + in_channels <= usize::MAX,
                forall|m: int|
                    start <= m < j ==> #[trigger] data@[m] == routed_sample(
                        samples@,
                        position as int,
                        in_channels as int,
                        m - start,
                        silence,
                    ),
                forall|m: int| 0 <= m < data0.len() && !(start <= m < j) ==> #[trigger] data@[m] == data0[m],
            decreases end - j,
        {
            let channel = (j - start) % in_channels;
            let value = if channel < samples.len() - position {
                samples[position + channel]
            } else {
                silence
            };
            data[j] = value;
            j = j + 1;
        }
        *index = position + in_channels;
        FrameFill::Played
    }
}


/// Law: copying a frame moves as much as fits. While the frame has samples
/// left, the number of samples copied is the smaller of the output frames the
/// buffer holds and the samples left: at least one whenever the buffer holds
/// a full output frame, and the whole rest of the frame whenever it fits.
pub proof fn lemma_copy_moves_what_fits(data_len: int, channels: int, frame_len: int, position: int)
    requires
        data_len >= 0,
        channels > 0,
        0 <= position < frame_len,
    ensures
        ({
            let count = samples_to_copy(data_len, channels, frame_len, position);
            &&& count * channels <= data_len
            &&& position + count <= frame_len
            &&& (count == frame_len - position || (count + 1) * channels > data_len)
            &&& (data_len >= channels ==> count >= 1)
            &&& ((frame_len - position) * channels <= data_len ==> count == frame_len - position)
        }),
{
    let q = data_len / channels;
    let count = samples_to_copy(data_len, channels, frame_len, position);
    assert(q * channels <= data_len && data_len < (q + 1) * channels && q >= 0) by (nonlinear_arith)
        requires
            channels > 0,
            data_len >= 0,
            q == data_len / channels,
    ;
    if count == q {
        assert((count + 1) * channels > data_len);
    } else {
        assert(count == frame_len - position);
        assert(count < q);
        lemma_mul_inequality(count, q, channels);
    }
    if data_len >= channels {
        assert(q >= 1) by (nonlinear_arith)
            requires
                q * channels <= data_len,
                data_len < (q + 1) * channels,
                data_len >= channels,
                channels > 0,
        ;
    }
    if (frame_len - position) * channels <= data_len {
        assert(frame_len - position <= q) by (nonlinear_arith)
            requires
                (frame_len - position) * channels <= data_len,
                data_len < (q + 1) * channels,
                channels > 0,
        ;
    }
}

/// Law: playback routes whole input frames. The first `in_channels` slots of
/// an output frame carry the current input frame channel by channel (silence
/// past the end of the clip), and from there the pattern repeats every
/// `in_channels` slots; in particular every slot fed from a mono clip
/// carries the same input sample.
pub proof fn lemma_routing_repeats_input_frame<T>(
    samples: Seq<T>,
    index: int,
    in_channels: int,
    k: int,
    silence: T,
)
    requires
        in_channels > 0,
        0 <= index,
        0 <= k,
    ensures
        k < in_channels ==> routed_sample(samples, index, in_channels, k, silence) == (if index + k
            < samples.len() {
            samples[index + k]
        } else {
            silence
        }),
        routed_sample(samples, index, in_channels, k + in_channels, silence) == routed_sample(
            samples,
            index,
            in_channels,
            k,
            silence,
        ),
        in_channels == 1 && index < samples.len() ==> routed_sample(samples, index, in_channels, k, silence)
            == samples[index],
{
    let r = k % in_channels;
    let q = k / in_channels;
    vstd::arithmetic::div_mod::lemma_fundamental_div_mod(k, in_channels);
    vstd::arithmetic::div_mod::lemma_mod_pos_bound(k, in_channels);
    assert(k == q * in_channels + r) by (nonlinear_arith)
        requires
            k == in_channels * q + r,
    ;
    if k < in_channels {
        lemma_fundamental_div_mod_converse(k, in_channels, 0, k);
    }
    assert(k + in_channels == (q + 1) * in_channels + r) by (nonlinear_arith)
        requires
            k == q * in_channels + r,
    ;
    lemma_fundamental_div_mod_converse(k + in_channels, in_channels, q + 1, r);
    if in_channels == 1 {
        lemma_fundamental_div_mod_converse(k, 1, k, 0);
    }
}

} // verus!
