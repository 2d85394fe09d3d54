use maia_sdr::json::RecorderMode;
use maia_sdr::json::RecorderState::{Running, Stopped, Stopping};
use maia_sdr::json::RecorderStateChange;
use maia_sdr::recording::{
    RecordingStream, RecordingText,
    begins_with_timestamp, prepend_timestamp_to_filename, recorder_step, recording_tar_size,
    round_up_multiple_512, unpack_12bit_to_16bit, Mode, RecorderAction, RecorderEvent,
    RecordingBufferInfo, CHUNK_ITEMS,
};

#[test]
fn item_sizes() {
    assert_eq!(Mode(RecorderMode::IQ8bit).input_bytes_per_item(), 2);
    assert_eq!(Mode(RecorderMode::IQ12bit).input_bytes_per_item(), 3);
    assert_eq!(Mode(RecorderMode::IQ16bit).input_bytes_per_item(), 4);
    assert_eq!(Mode(RecorderMode::IQ8bit).output_bytes_per_item(), 2);
    assert_eq!(Mode(RecorderMode::IQ12bit).output_bytes_per_item(), 4);
    assert_eq!(Mode(RecorderMode::IQ16bit).output_bytes_per_item(), 4);
}

#[test]
fn unpack_12bit_samples() {
    let input = [0x12, 0x34, 0x56, 0xff, 0xf8, 0x00, 0x80, 0x07, 0xff];
    let mut output = [0xaa; 13];
    unpack_12bit_to_16bit(&mut output, &input);
    assert_eq!(
        output,
        [0x23, 0x01, 0x56, 0x04, 0xff, 0xff, 0x00, 0xf8, 0x00, 0xf8, 0xff, 0x07, 0xaa]
    );
    let pairs: Vec<i16> = output[..12]
        .chunks_exact(2)
        .map(|b| i16::from_le_bytes([b[0], b[1]]))
        .collect();
    assert_eq!(pairs, vec![0x123, 0x456, -1, -2048, -2048, 2047]);
}

#[test]
fn buffer_info_sizes() {
    let info = RecordingBufferInfo::new(Mode(RecorderMode::IQ12bit), 0x1000, 0x1000 + 3001, None);
    assert_eq!(info.size, 3001);
    assert_eq!(info.num_items(), 1000);
    assert_eq!(info.output_size(), 4000);
    assert_eq!(info.chunk_bytes, 3 * CHUNK_ITEMS);
    let info = RecordingBufferInfo::new(Mode(RecorderMode::IQ8bit), 0, 1000, Some(10));
    assert_eq!(info.size, 20);
    assert_eq!(info.output_size(), 20);
    let info = RecordingBufferInfo::new(Mode(RecorderMode::IQ16bit), 0, 40, Some(100));
    assert_eq!(info.size, 40);
    assert_eq!(info.num_items(), 10);
}

#[test]
fn stream_chunks_cover_the_recording() {
    let size = 3 * CHUNK_ITEMS + 7;
    let info = RecordingBufferInfo::new(Mode(RecorderMode::IQ12bit), 0, size, None);
    assert_eq!(info.next_chunk(0), Some((3 * CHUNK_ITEMS, CHUNK_ITEMS)));
    assert_eq!(info.next_chunk(3 * CHUNK_ITEMS), Some((6, 2)));
    assert_eq!(info.next_chunk(3 * CHUNK_ITEMS + 6), None);
    let mut offset = 0;
    let mut items = 0;
    let mut out_bytes = 0;
    while let Some((bytes, n)) = info.next_chunk(offset) {
        offset += bytes;
        items += n;
        out_bytes += info.chunk_output_bytes(bytes, n);
    }
    assert_eq!(items, info.num_items());
    assert_eq!(out_bytes, info.output_size());
}

#[test]
fn tar_block_rounding() {
    assert_eq!(round_up_multiple_512(0), 0);
    assert_eq!(round_up_multiple_512(1), 512);
    assert_eq!(round_up_multiple_512(512), 512);
    assert_eq!(round_up_multiple_512(513), 1024);
    assert_eq!(recording_tar_size(100, 1000), 1536 + 512 + 1024 + 1024);
    assert_eq!(recording_tar_size(0, 0), 1536 + 1024);
}

#[test]
fn timestamps_in_file_names() {
    assert!(begins_with_timestamp("2022-11-01-00-00-00_recording"));
    assert!(begins_with_timestamp("2022-11-01-00-00-00_"));
    assert!(!begins_with_timestamp("2022-11-01-00-00-00"));
    assert!(!begins_with_timestamp("2022-11-01-00-00-00-recording"));
    assert!(!begins_with_timestamp("2022/11-01-00-00-00_recording"));
    assert!(!begins_with_timestamp("recording"));
    assert!(!begins_with_timestamp("2022-11-01-0a-00-00_recording"));
}

#[test]
fn prepending_replaces_an_old_timestamp() {
    let mut name = String::from("recording");
    prepend_timestamp_to_filename(&mut name, "2023-01-02-03-04-05");
    assert_eq!(name, "2023-01-02-03-04-05_recording");
    prepend_timestamp_to_filename(&mut name, "2024-06-07-08-09-10");
    assert_eq!(name, "2024-06-07-08-09-10_recording");
}

#[test]
fn recorder_state_machine() {
    let start = RecorderEvent::Patch(Some(RecorderStateChange::Start));
    let stop = RecorderEvent::Patch(Some(RecorderStateChange::Stop));
    assert_eq!(recorder_step(Stopped, start, false), (Running, RecorderAction::Start));
    assert_eq!(recorder_step(Stopped, start, true), (Stopped, RecorderAction::RefuseBufferInUse));
    assert_eq!(recorder_step(Running, start, false), (Running, RecorderAction::Nothing));
    assert_eq!(recorder_step(Stopping, start, true), (Stopping, RecorderAction::Nothing));
    assert_eq!(recorder_step(Running, stop, true), (Stopping, RecorderAction::Stop));
    assert_eq!(recorder_step(Stopped, stop, false), (Stopped, RecorderAction::Nothing));
    assert_eq!(recorder_step(Running, RecorderEvent::Patch(None), false), (Running, RecorderAction::Nothing));
    for s in [Stopped, Running, Stopping] {
        assert_eq!(recorder_step(s, RecorderEvent::Finished, false), (Stopped, RecorderAction::Finish));
    }
}

#[test]
fn stream_hands_out_every_chunk_then_stops() {
    let items = 2 * CHUNK_ITEMS + 5;
    let size = 3 * items + 2;
    let buffer: Vec<u8> = (0..size).map(|k| (k % 251) as u8).collect();
    let info = RecordingBufferInfo::new(Mode(RecorderMode::IQ12bit), 0, size, None);
    let output_size = info.output_size();
    let mut stream = RecordingStream::new(info);
    let mut lens = Vec::new();
    while let Some(chunk) = stream.poll_next(&buffer) {
        lens.push(chunk.len());
    }
    assert_eq!(lens, vec![4 * CHUNK_ITEMS, 4 * CHUNK_ITEMS, 20]);
    assert_eq!(lens.iter().sum::<usize>(), output_size);
    assert_eq!(stream.poll_next(&buffer), None);
    assert_eq!(stream.poll_next(&buffer), None);
}

#[test]
fn stream_copies_8_bit_data() {
    let buffer: Vec<u8> = (0..7).collect();
    let info = RecordingBufferInfo::new(Mode(RecorderMode::IQ8bit), 0, 7, None);
    let mut stream = RecordingStream::new(info);
    assert_eq!(stream.poll_next(&buffer), Some(vec![0, 1, 2, 3, 4, 5]));
    assert_eq!(stream.poll_next(&buffer), None);
}

#[test]
fn metadata_patch_replaces_given_fields() {
    let mut text = RecordingText {
        filename: "recording".to_string(),
        description: "old".to_string(),
        author: "me".to_string(),
    };
    text.patch(Some("capture".to_string()), None, Some("you".to_string()));
    assert_eq!(text.filename, "capture");
    assert_eq!(text.description, "old");
    assert_eq!(text.author, "you");
    text.patch(None, None, None);
    assert_eq!(text.filename, "capture");
}
