use vstd::prelude::*;
use vstd::arithmetic::div_mod::lemma_fundamental_div_mod;
use vstd::arithmetic::mul::lemma_mul_inequality;

verus! {

/// Samples per Opus frame: 20 ms at 48 kHz.
pub const OPUS_FRAME_SIZE: usize = 960;

/// Sample rate of every encoded stream.
pub const OPUS_SAMPLE_RATE: u32 = 48000;

/// `x` as two little-endian bytes.
pub open spec fn le_u16(x: u16) -> Seq<u8> {
    seq![(x % 256) as u8, (x / 256) as u8]
}

/// `x` as four little-endian bytes.
pub open spec fn le_u32(x: u32) -> Seq<u8> {
    seq![
        (x % 256) as u8,
        ((x / 256) % 256) as u8,
        ((x / 65536) % 256) as u8,
        (x / 16777216) as u8,
    ]
}

/// ASCII "OpusHead".
pub open spec fn opus_head_magic() -> Seq<u8> {
    seq![
        'O' as u8,
        'p' as u8,
        'u' as u8,
        's' as u8,
        'H' as u8,
        'e' as u8,
        'a' as u8,
        'd' as u8,
    ]
}

/// ASCII "OpusTags".
pub open spec fn opus_tags_magic() -> Seq<u8> {
    seq![
        'O' as u8,
        'p' as u8,
        'u' as u8,
        's' as u8,
        'T' as u8,
        'a' as u8,
        'g' as u8,
        's' as u8,
    ]
}

/// ASCII "rustic_audio", the vendor named in every comment header.
pub open spec fn vendor_name() -> Seq<u8> {
    seq![
        'r' as u8,
        'u' as u8,
        's' as u8,
        't' as u8,
        'i' as u8,
        'c' as u8,
        '_' as u8,
        'a' as u8,
        'u' as u8,
        'd' as u8,
        'i' as u8,
        'o' as u8,
    ]
}

/// The identification header of a mono 48 kHz Ogg Opus stream: magic,
/// version 1, one channel, no pre-skip, the input sample rate, zero output
/// gain and channel mapping family 0.
pub open spec fn opus_id_header_bytes() -> Seq<u8> {
    opus_head_magic() + seq![1u8, 1u8] + le_u16(0) + le_u32(48000) + seq![0u8, 0u8] + seq![0u8]
}

/// The comment header: magic, vendor length and vendor, and an empty list of
/// user comments.
pub open spec fn opus_tags_header_bytes() -> Seq<u8> {
    opus_tags_magic() + le_u32(vendor_name().len() as u32) + vendor_name() + seq![0u8, 0u8, 0u8, 0u8]
}

fn push_le_u16(out: &mut Vec<u8>, x: u16)
    ensures
        final(out)@ == old(out)@ + le_u16(x),
{
    out.push((x % 256) as u8);
    out.push((x / 256) as u8);
    assert(final(out)@ =~= old(out)@ + le_u16(x));
}

fn push_le_u32(out: &mut Vec<u8>, x: u32)
    ensures
        final(out)@ == old(out)@ + le_u32(x),
{
    out.push((x % 256) as u8);
    out.push(((x / 256) % 256) as u8);
    out.push(((x / 65536) % 256) as u8);
    out.push((x / 16777216) as u8);
    assert(final(out)@ =~= old(out)@ + le_u32(x));
}

fn push_all(out: &mut Vec<u8>, bytes: &[u8])
    ensures
        final(out)@ == old(out)@ + bytes@,
{
    let mut i: usize = 0;
    while i < bytes.len()
        invariant
            i <= bytes@.len(),
            out@ == old(out)@ + bytes@.subrange(0, i as int),
        decreases bytes@.len() - i,
    {
        out.push(bytes[i]);
        i = i + 1;
        assert(out@ =~= old(out)@ + bytes@.subrange(0, i as int));
    }
    assert(bytes@.subrange(0, i as int) =~= bytes@);
}

fn head_magic() -> (r: Vec<u8>)
    ensures
        r@ == opus_head_magic(),
{
    let r = vec!['O' as u8, 'p' as u8, 'u' as u8, 's' as u8, 'H' as u8, 'e' as u8, 'a' as u8, 'd' as u8];
    assert(r@ =~= opus_head_magic());
    r
}

fn tags_magic() -> (r: Vec<u8>)
    ensures
        r@ == opus_tags_magic(),
{
    let r = vec!['O' as u8, 'p' as u8, 'u' as u8, 's' as u8, 'T' as u8, 'a' as u8, 'g' as u8, 's' as u8];
    assert(r@ =~= opus_tags_magic());
    r
}

fn vendor() -> (r: Vec<u8>)
    ensures
        r@ == vendor_name(),
{
    let r = vec![
        'r' as u8,
        'u' as u8,
        's' as u8,
        't' as u8,
        'i' as u8,
        'c' as u8,
        '_' as u8,
        'a' as u8,
        'u' as u8,
        'd' as u8,
        'i' as u8,
        'o' as u8,
    ];
    assert(r@ =~= vendor_name());
    r
}

/// The first packet of every encoded stream ("OpusHead").
pub fn opus_id_header() -> (header: Vec<u8>)
    ensures
        header@ == opus_id_header_bytes(),
{
    let mut header = head_magic();
    header.push(1);
    header.push(1);
    push_le_u16(&mut header, 0);
    push_le_u32(&mut header, OPUS_SAMPLE_RATE);
    header.push(0);
    header.push(0);
    header.push(0);
    assert(header@ =~= opus_id_header_bytes());
    header
}

/// The second packet of every encoded stream ("OpusTags").
pub fn opus_tags_header() -> (header: Vec<u8>)
    ensures
        header@ == opus_tags_header_bytes(),
{
    let mut header = tags_magic();
    let name = vendor();
    push_le_u32(&mut header, name.len() as u32);
    push_all(&mut header, name.as_slice());
    header.push(0);
    header.push(0);
    header.push(0);
    header.push(0);
    assert(header@ =~= opus_tags_header_bytes());
    header
}


/// Number of frames of `frame_size` samples needed to hold `n_samples`
/// samples (the last one possibly partial).
pub open spec fn frames_needed(n_samples: int, frame_size: int) -> int {
    if n_samples % frame_size == 0 {
        n_samples / frame_size
    } else {
        n_samples / frame_size + 1
    }
}

/// Number of audio packets an encoding of `n_samples` samples produces.
pub fn frame_count(n_samples: usize, frame_size: usize) -> (n: usize)
    requires
        frame_size > 0,
    ensures
        n == frames_needed(n_samples as int, frame_size as int),
{
    proof {
        lemma_fundamental_div_mod(n_samples as int, frame_size as int);
        let q = n_samples as int / frame_size as int;
        let r = n_samples as int % frame_size as int;
        if r != 0 {
            assert(frame_size >= 2);
            assert(2 * q <= n_samples) by (nonlinear_arith)
                requires
                    n_samples == frame_size * q + r,
                    r >= 0,
                    q >= 0,
                    frame_size >= 2,
            ;
        }
    }
    if n_samples % frame_size == 0 {
        n_samples / frame_size
    } else {
        n_samples / frame_size + 1
    }
}

/// Law: every frame of the stream starts inside the audio, so no packet is
/// made of padding alone, and the frames together cover every sample.
pub proof fn lemma_frames_cover_audio(n_samples: int, frame_size: int, index: int)
    requires
        n_samples >= 0,
        frame_size > 0,
        0 <= index,
    ensures
        index < frames_needed(n_samples, frame_size) <==> index * frame_size < n_samples,
        frames_needed(n_samples, frame_size) * frame_size >= n_samples,
{
    lemma_fundamental_div_mod(n_samples, frame_size);
    let q = n_samples / frame_size;
    let r = n_samples % frame_size;
    assert(n_samples == frame_size * q + r);
    assert(0 <= r < frame_size);
    if index <= q - 1 {
        lemma_mul_inequality(index, q - 1, frame_size);
        assert((q - 1) * frame_size == frame_size * q - frame_size) by (nonlinear_arith);
    }
    if index >= q + 1 {
        lemma_mul_inequality(q + 1, index, frame_size);
        assert((q + 1) * frame_size == frame_size * q + frame_size) by (nonlinear_arith);
    }
    if index == q {
        assert(index * frame_size == frame_size * q) by (nonlinear_arith)
            requires
                index == q,
        ;
    }
    assert(q * frame_size == frame_size * q) by (nonlinear_arith);
    assert((q + 1) * frame_size == frame_size * q + frame_size) by (nonlinear_arith);
}

/// The samples frame `index` hands to the codec: `frame_size` samples
/// starting at `index * frame_size`, padded with `silence` past the end.
pub open spec fn padded_frame_spec<T>(samples: Seq<T>, index: int, frame_size: int, silence: T) -> Seq<T> {
    Seq::new(
        frame_size as nat,
        |k: int|
            if index * frame_size + k < samples.len() {
                samples[index * frame_size + k]
            } else {
                silence
            },
    )
}

/// Frame `index` of the stream, always exactly `frame_size` samples long.
pub fn padded_frame<T: Copy>(samples: &[T], index: usize, frame_size: usize, silence: T) -> (frame: Vec<T>)
    requires
        frame_size > 0,
        index < frames_needed(samples@.len() as int, frame_size as int),
    ensures
        frame@ == padded_frame_spec(samples@, index as int, frame_size as int, silence),
{
    proof {
        lemma_frames_cover_audio(samples@.len() as int, frame_size as int, index as int);
    }
    let n = samples.len();
    assert(index * frame_size < n);
    let start = index * frame_size;
    let mut frame: Vec<T> = Vec::new();
    let mut k: usize = 0;
    while k < frame_size
        invariant
            start == index * frame_size,
            start < samples@.len(),
            k <= frame_size,
            frame@.len() == k,
            forall|m: int|
                0 <= m < k ==> #[trigger] frame@[m] == (if start + m < samples@.len() {
                    samples@[start + m]
                } else {
                    silence
                }),
        decreases frame_size - k,
    {
        let value = if k < samples.len() - start {
            samples[start + k]
        } else {
            silence
        };
        frame.push(value);
        k = k + 1;
    }
    assert(frame@ =~= padded_frame_spec(samples@, index as int, frame_size as int, silence));
    frame
}

/// How an audio packet ends its page.
#[derive(Clone, Copy, PartialEq, Eq, Structural, Debug)]
pub enum PacketEnd {
    /// More packets follow.
    Normal,
    /// The last packet: it closes the logical stream.
    EndOfStream,
}

/// Placement of one audio packet in the Ogg stream.
#[derive(Clone, Copy, PartialEq, Eq, Structural, Debug)]
pub struct AudioPacket {
    /// Samples decoded once this packet has been played.
    pub granule_position: u64,
    pub end: PacketEnd,
}

/// Placement of audio packet `index` among `n_frames`: its granule position
/// counts the samples of all frames up to and including it, and only the
/// last packet ends the stream.
pub fn audio_packet(index: usize, n_frames: usize, frame_size: usize) -> (packet: AudioPacket)
    requires
        index < n_frames,
        (index + 1) * frame_size <= i64::MAX,
    ensures
        packet.granule_position == (index + 1) * frame_size,
        packet.end == (if index + 1 == n_frames {
            PacketEnd::EndOfStream
        } else {
            PacketEnd::Normal
        }),
{
    let granule_position = ((index + 1) as u64) * (frame_size as u64);
    let end = if index + 1 == n_frames {
        PacketEnd::EndOfStream
    } else {
        PacketEnd::Normal
    };
    AudioPacket { granule_position, end }
}


/// Law: the frames reassemble the audio. Sample `p` of the audio is slot
/// `p % frame_size` of frame `p / frame_size`, and that frame is one of the
/// stream's frames; every slot past the end of the audio holds silence. So
/// frames `0..frame_count` laid end to end are the samples followed by
/// silence.
pub proof fn lemma_frames_reassemble_audio<T>(samples: Seq<T>, frame_size: int, silence: T, p: int)
    requires
        frame_size > 0,
        0 <= p,
    ensures
        p < samples.len() ==> p / frame_size < frames_needed(samples.len() as int, frame_size),
        p < samples.len() ==> padded_frame_spec(samples, p / frame_size, frame_size, silence)[p
            % frame_size] == samples[p],
        p >= samples.len() ==> padded_frame_spec(samples, p / frame_size, frame_size, silence)[p
            % frame_size] == silence,
        0 <= p % frame_size < frame_size,
{
    lemma_fundamental_div_mod(p, frame_size);
    vstd::arithmetic::div_mod::lemma_mod_pos_bound(p, frame_size);
    let q = p / frame_size;
    let r = p % frame_size;
    assert(q * frame_size + r == p) by (nonlinear_arith)
        requires
            p == frame_size * q + r,
    ;
    assert(q >= 0) by (nonlinear_arith)
        requires
            p >= 0,
            frame_size > 0,
            p == frame_size * q + r,
            r < frame_size,
    ;
    if p < samples.len() {
        lemma_frames_cover_audio(samples.len() as int, frame_size, q);
        assert(q * frame_size <= p);
    }
}

} // verus!
