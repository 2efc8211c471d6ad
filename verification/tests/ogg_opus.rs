use rustic_audio_tool::ogg_opus::{
    audio_packet, frame_count, opus_id_header, opus_tags_header, padded_frame, PacketEnd,
    OPUS_FRAME_SIZE, OPUS_SAMPLE_RATE,
};

#[test]
fn id_header_bytes() {
    let mut expected = b"OpusHead".to_vec();
    expected.extend_from_slice(&[1, 1]);
    expected.extend_from_slice(&0u16.to_le_bytes());
    expected.extend_from_slice(&48000u32.to_le_bytes());
    expected.extend_from_slice(&[0, 0, 0]);
    assert_eq!(opus_id_header(), expected);
    assert_eq!(opus_id_header().len(), 19);
}

#[test]
fn tags_header_bytes() {
    let mut expected = b"OpusTags".to_vec();
    expected.extend_from_slice(&12u32.to_le_bytes());
    expected.extend_from_slice(b"rustic_audio");
    expected.extend_from_slice(&[0, 0, 0, 0]);
    assert_eq!(opus_tags_header(), expected);
}

#[test]
fn stream_constants() {
    assert_eq!(OPUS_FRAME_SIZE, 960);
    assert_eq!(OPUS_SAMPLE_RATE, 48000);
}

#[test]
fn frame_count_rounds_up() {
    assert_eq!(frame_count(0, 960), 0);
    assert_eq!(frame_count(1, 960), 1);
    assert_eq!(frame_count(960, 960), 1);
    assert_eq!(frame_count(961, 960), 2);
    assert_eq!(frame_count(1920, 960), 2);
    assert_eq!(frame_count(usize::MAX, 2), usize::MAX / 2 + 1);
}

#[test]
fn two_full_frames_give_two_audio_packets_without_trailing_empty_one() {
    let samples = vec![0i16; 960 * 2];
    let n = frame_count(samples.len(), 960);
    assert_eq!(n, 2);
    for index in 0..n {
        let frame = padded_frame(&samples, index, 960, 0);
        assert_eq!(frame.len(), 960);
    }
    assert_eq!(
        audio_packet(0, n, 960),
        rustic_audio_tool::ogg_opus::AudioPacket { granule_position: 960, end: PacketEnd::Normal }
    );
    assert_eq!(
        audio_packet(1, n, 960),
        rustic_audio_tool::ogg_opus::AudioPacket {
            granule_position: 1920,
            end: PacketEnd::EndOfStream
        }
    );
}

#[test]
fn last_frame_is_padded_with_silence() {
    let samples = [1, 2, 3, 4, 5];
    assert_eq!(padded_frame(&samples, 0, 2, 0), vec![1, 2]);
    assert_eq!(padded_frame(&samples, 2, 2, 0), vec![5, 0]);
    assert_eq!(padded_frame(&samples, 1, 4, -1), vec![5, -1, -1, -1]);
}
