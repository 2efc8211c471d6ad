use rustic_audio_tool::pcm::{
    copy_frame_to_output, fill_playback_frame, mono_left_channel, u16_sample_to_i16, FrameFill,
};

#[test]
fn copy_frame_to_output_expands_mono_samples_across_channels() {
    let mut output = [0.0; 6];
    let mut frame_position = 0;

    let copied = copy_frame_to_output(&mut output, 2, &[0.25, -0.5, 1.0], &mut frame_position);

    assert_eq!(copied, 6);
    assert_eq!(frame_position, 3);
    assert_eq!(output, [0.25, 0.25, -0.5, -0.5, 1.0, 1.0]);
}

#[test]
fn copy_frame_to_output_respects_existing_frame_offset() {
    let mut output = [0.0; 4];
    let mut frame_position = 1;

    let copied = copy_frame_to_output(&mut output, 2, &[0.1, 0.2, 0.3], &mut frame_position);

    assert_eq!(copied, 4);
    assert_eq!(frame_position, 3);
    assert_eq!(output, [0.2, 0.2, 0.3, 0.3]);
}

#[test]
fn copy_frame_to_output_stops_at_buffer_end_and_frame_end() {
    let mut output = [9i16; 5];
    let mut position = 0;
    let copied = copy_frame_to_output(&mut output, 2, &[1, 2, 3, 4], &mut position);
    assert_eq!(copied, 4);
    assert_eq!(position, 2);
    assert_eq!(output, [1, 1, 2, 2, 9]);

    let mut output = [9i16; 3];
    let mut position = 4;
    assert_eq!(copy_frame_to_output(&mut output, 1, &[1, 2, 3, 4], &mut position), 0);
    assert_eq!(position, 4);
    assert_eq!(output, [9, 9, 9]);

    let mut position = 7;
    assert_eq!(copy_frame_to_output(&mut output, 1, &[1, 2], &mut position), 0);
    assert_eq!(position, 7);
}

#[test]
fn mono_left_channel_keeps_first_of_each_pair() {
    assert_eq!(mono_left_channel(&[1, 2, 3, 4, 5], 2), vec![1, 3, 5]);
    assert_eq!(mono_left_channel(&[1, 2, 3, 4], 2), vec![1, 3]);
    assert_eq!(mono_left_channel(&[1, 2, 3], 1), vec![1, 2, 3]);
    assert_eq!(mono_left_channel(&[1, 2, 3, 4, 5, 6], 3), vec![1, 2, 3, 4, 5, 6]);
    assert_eq!(mono_left_channel::<f32>(&[], 2), Vec::<f32>::new());
}

#[test]
fn unsigned_samples_are_reinterpreted_then_shifted() {
    assert_eq!(u16_sample_to_i16(0), -32767);
    assert_eq!(u16_sample_to_i16(32767), 0);
    assert_eq!(u16_sample_to_i16(65535), -32768);
    assert_eq!(u16_sample_to_i16(100), -32667);
}

#[test]
fn playback_frame_routes_channels_and_pads() {
    let samples = [1, 2, 3, 4, 5];
    let mut data = [0i32; 6];
    let mut index = 0;
    assert_eq!(
        fill_playback_frame(&mut data, 0, 3, &samples, 2, &mut index, true, 0),
        FrameFill::Played
    );
    assert_eq!(index, 2);
    assert_eq!(data, [1, 2, 1, 0, 0, 0]);
    assert_eq!(
        fill_playback_frame(&mut data, 3, 3, &samples, 2, &mut index, true, 0),
        FrameFill::Played
    );
    assert_eq!(index, 4);
    assert_eq!(data, [1, 2, 1, 3, 4, 3]);
    assert_eq!(
        fill_playback_frame(&mut data, 0, 3, &samples, 2, &mut index, true, 0),
        FrameFill::Played
    );
    assert_eq!(index, 6);
    assert_eq!(data, [5, 0, 5, 3, 4, 3]);
    assert_eq!(
        fill_playback_frame(&mut data, 3, 3, &samples, 2, &mut index, true, 0),
        FrameFill::Finished
    );
    assert_eq!(index, 6);
    assert_eq!(data, [5, 0, 5, 0, 0, 0]);
}

#[test]
fn paused_playback_frame_is_silent() {
    let samples = [1.0f32, 2.0];
    let mut data = [7.0f32; 5];
    let mut index = 0;
    assert_eq!(
        fill_playback_frame(&mut data, 3, 2, &samples, 1, &mut index, false, 0.0),
        FrameFill::Silenced
    );
    assert_eq!(index, 0);
    assert_eq!(data, [7.0, 7.0, 7.0, 0.0, 0.0]);
    assert_eq!(
        fill_playback_frame(&mut data, 4, 2, &samples, 1, &mut index, true, 0.0),
        FrameFill::Played
    );
    assert_eq!(index, 1);
    assert_eq!(data, [7.0, 7.0, 7.0, 0.0, 1.0]);
}

#[test]
fn exhausted_frame_copies_nothing_even_without_channels() {
    let mut output = [1u8; 2];
    let mut position = 2;
    assert_eq!(copy_frame_to_output(&mut output, 0, &[5, 6], &mut position), 0);
    assert_eq!(position, 2);
    assert_eq!(output, [1, 1]);
}

#[test]
fn paused_playback_needs_no_input_channels() {
    let mut data = [3i16; 2];
    let mut index = 0;
    assert_eq!(
        fill_playback_frame(&mut data, 0, 2, &[1i16, 2], 0, &mut index, false, 0),
        FrameFill::Silenced
    );
    assert_eq!(data, [0, 0]);
}
