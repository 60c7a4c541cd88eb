use mlp::mlp::{MlpFrame, MlpFrameReader, MlpIterator};

/// The first 500 bytes of a major sync access unit that declares 768 bytes.
fn major_frame_prefix() -> Vec<u8> {
    let mut data = vec![0x01u8, 0x80, 0x1b, 0xe8, 0xf8, 0x72, 0x6f, 0xba];
    data.resize(500, 0x5a);
    data
}

fn access_unit(words: u8, major: bool, fill: u8) -> Vec<u8> {
    let len = words as usize * 2;
    let mut data = vec![0x00u8, words, 0x00, 0x10];
    if major {
        data.extend_from_slice(&[0xf8, 0x72, 0x6f, 0xba]);
    } else {
        data.extend_from_slice(&[0x00, 0x00, 0x00, 0x00]);
    }
    data.resize(len, fill);
    data
}

#[test]
fn iter_test_none() {
    let data: Vec<u8> = Vec::new();
    let iterator = MlpIterator::new(data);
    let num_frames = iterator.count();
    assert_eq!(0, num_frames);
}

#[test]
fn iter_test_partial() {
    let data = major_frame_prefix();
    let iterator = MlpIterator::new(data[..500].to_vec());
    let num_frames = iterator.count();
    assert_eq!(0, num_frames);
}

#[test]
fn iter_counts_whole_frames_only() {
    let mut data = access_unit(8, true, 1);
    data.extend(access_unit(12, false, 2));
    data.extend(access_unit(10, false, 3));
    assert_eq!(3, MlpIterator::new(data.clone()).count());
    data.truncate(data.len() - 1);
    assert_eq!(2, MlpIterator::new(data).count());
}

#[test]
fn iter_yields_frame_positions() {
    let mut data = access_unit(8, true, 1);
    data.extend(access_unit(12, false, 2));
    let mut it = MlpIterator::with_segment(data, 7);
    let first = it.next().unwrap();
    assert_eq!(
        first,
        MlpFrame { segment: 7, offset: 0, length: 16, input_timing: 0x10, has_major_sync: true }
    );
    let second = it.next().unwrap();
    assert_eq!(
        second,
        MlpFrame { segment: 7, offset: 16, length: 24, input_timing: 0x10, has_major_sync: false }
    );
    assert!(it.next().is_none());
}

#[test]
fn iter_stops_at_header_below_eight_bytes() {
    let data = vec![0x00u8, 0x02, 0, 0, 0, 0, 0, 0, 0, 0];
    assert_eq!(0, MlpIterator::new(data).count());
}

#[test]
fn frame_reader_reads_one_access_unit() {
    let mut data = access_unit(8, true, 1);
    data.extend(access_unit(12, false, 2));
    let frame = MlpFrame { segment: 0, offset: 16, length: 24, input_timing: 0x10, has_major_sync: false };
    let mut reader = MlpFrameReader::new(&frame);
    let a = reader.read(&data, 10);
    assert_eq!(a, data[16..26].to_vec());
    let b = reader.read(&data, 100);
    assert_eq!(b, data[26..40].to_vec());
    let c = reader.read(&data, 100);
    assert!(c.is_empty());
}

#[test]
fn frame_reader_stops_at_stream_end() {
    let data = access_unit(8, false, 9);
    let frame = MlpFrame { segment: 0, offset: 8, length: 16, input_timing: 0, has_major_sync: false };
    let mut reader = MlpFrameReader::new(&frame);
    assert_eq!(reader.read(&data, 100), data[8..16].to_vec());
}

#[test]
fn mlp_parser_test_xor_u8() {
    let byte = 0x80u8;
    let xor = (byte ^ (byte << 4)) >> 4;
    assert_eq!(xor, 0b1000);
}

#[test]
fn parser_test_xor_u8() {
    let byte = 0x80u8;
    let xor = (byte ^ (byte << 4)) >> 4;
    assert_eq!(xor, 0b1000);
}
