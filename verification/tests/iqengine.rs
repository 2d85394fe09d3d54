use maia_sdr::json::RecorderMode;
use maia_sdr::recording::iqengine::{get_iq_data, get_minimap_data, MINIMAP_FFT_SIZE, MINIMAP_NUM_FFTS};
use maia_sdr::recording::{to_file_data, Mode, RecordingBufferInfo};

#[test]
fn file_data_copies_8_and_16_bit() {
    let data = [1u8, 2, 3, 4, 5, 6, 7, 8];
    assert_eq!(to_file_data(Mode(RecorderMode::IQ8bit), &data), data.to_vec());
    assert_eq!(to_file_data(Mode(RecorderMode::IQ16bit), &data), data.to_vec());
}

#[test]
fn file_data_unpacks_12_bit() {
    let data = [0x12u8, 0x34, 0x56, 0xff, 0xf8, 0x00];
    assert_eq!(
        to_file_data(Mode(RecorderMode::IQ12bit), &data),
        vec![0x23, 0x01, 0x56, 0x04, 0xff, 0xff, 0x00, 0xf8]
    );
}

#[test]
fn iq_data_reads_requested_blocks() {
    let buffer: Vec<u8> = (0..40).collect();
    let info = RecordingBufferInfo::new(Mode(RecorderMode::IQ8bit), 0, 40, None);
    // blocks of 2 items = 4 bytes
    assert_eq!(
        get_iq_data(&info, &buffer, &[3, 0], 2),
        Some(vec![12, 13, 14, 15, 0, 1, 2, 3])
    );
    assert_eq!(get_iq_data(&info, &buffer, &[], 2), Some(vec![]));
}

#[test]
fn iq_data_refuses_blocks_reaching_the_end() {
    let buffer: Vec<u8> = (0..40).collect();
    let info = RecordingBufferInfo::new(Mode(RecorderMode::IQ8bit), 0, 40, None);
    // block 8 ends at byte 36, block 9 exactly at the end of the recording
    assert!(get_iq_data(&info, &buffer, &[8], 2).is_some());
    assert_eq!(get_iq_data(&info, &buffer, &[0, 9], 2), None);
    assert_eq!(get_iq_data(&info, &buffer, &[12], 2), None);
}

#[test]
fn iq_data_unpacks_12_bit_blocks() {
    let buffer = [0u8, 0, 0, 0x12, 0x34, 0x56, 0, 0, 0];
    let info = RecordingBufferInfo::new(Mode(RecorderMode::IQ12bit), 0, 9, None);
    assert_eq!(
        get_iq_data(&info, &buffer, &[1], 1),
        Some(vec![0x23, 0x01, 0x56, 0x04])
    );
}

#[test]
fn minimap_of_a_long_recording() {
    let items = 2 * MINIMAP_FFT_SIZE * MINIMAP_NUM_FFTS + 1;
    let buffer: Vec<u8> = (0..2 * items).map(|k| (k / 256) as u8).collect();
    let info = RecordingBufferInfo::new(Mode(RecorderMode::IQ8bit), 0, 2 * items, None);
    let data = get_minimap_data(&info, &buffer).unwrap();
    assert_eq!(data.len(), MINIMAP_NUM_FFTS * MINIMAP_FFT_SIZE * 2);
    // block j of the minimap is block 2j of the recording
    let block = 2 * MINIMAP_FFT_SIZE;
    for j in [0, 1, 500, 999] {
        let start = 2 * j * block;
        assert_eq!(&data[j * block..(j + 1) * block], &buffer[start..start + block]);
    }
}

#[test]
fn minimap_of_a_short_recording_is_refused() {
    let buffer = vec![0u8; 2 * MINIMAP_FFT_SIZE * 10];
    let info = RecordingBufferInfo::new(Mode(RecorderMode::IQ8bit), 0, buffer.len(), None);
    assert_eq!(get_minimap_data(&info, &buffer), None);
}

#[test]
fn converted_chunk_takes_the_counted_bytes() {
    let info = RecordingBufferInfo::new(Mode(RecorderMode::IQ12bit), 0, 9, None);
    let data = [0u8; 6];
    assert_eq!(
        to_file_data(info.mode, &data).len(),
        info.chunk_output_bytes(data.len(), 2)
    );
}
