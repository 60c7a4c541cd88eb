use mlp::sync::{
    channel_meaning, dial_norm_adjust, format_info, major_sync_info, mix_level_adjust,
    nibble_and_au_length, sync_header, ChSourceFormat, ChannelMeaning, ControlEnabled, DialNorm,
    FormatInfo, MixLevel, MultichannelType, ParseError, SamplingFrequency, SyncHeader,
};

const CHANNEL_MEANING: [u8; 8] = [0x00, 0x00, 0x01, 0x18, 0x23, 0x00, 0x23, 0x00];

fn access_unit_head() -> Vec<u8> {
    let mut data = vec![0x51, 0x80, 0x1B, 0xE8];
    data.extend_from_slice(&[0xF8, 0x72, 0x6F, 0xBA]);
    data.extend_from_slice(&[0x00, 0x17, 0x80, 0x4F]);
    data.extend_from_slice(&[0xB7, 0x52, 0x10, 0x00, 0x00, 0x00, 0x8D, 0xDA, 0x41, 0xCC]);
    data.extend_from_slice(&CHANNEL_MEANING);
    data.extend_from_slice(&[0x3F, 0x1F, 0xAA, 0xBB]);
    data
}

fn expected_channel_meaning() -> ChannelMeaning {
    ChannelMeaning {
        ctrl_enabled: ControlEnabled { two_ch: false, six_ch: false, eight_ch: false },
        dial_norm: DialNorm { two_ch: -31, six_ch: -31, eight_ch: -31 },
        mix_level: MixLevel { two_ch: 105, six_ch: 105, eight_ch: 105 },
        source_format: ChSourceFormat { six_ch: 0, eight_ch: 0 },
        drc_start_up_gain: 0,
        extra_channel_meaning: None,
    }
}

fn standard_format() -> FormatInfo {
    FormatInfo {
        sampling_frequency: SamplingFrequency::K48,
        six_ch_multichannel_type: MultichannelType::StandardLoudspeakerLayout,
        eight_ch_multichannel_type: MultichannelType::StandardLoudspeakerLayout,
        channel_information: 0x17804F,
    }
}

#[test]
fn mlp_parser_format_info_test() {
    let data = vec![0x00, 0x17, 0x80, 0x4F, 0xB7];
    let sl = &data[..];
    assert_eq!(format_info(sl), Ok((4, standard_format())));
}

#[test]
fn parser_format_info_test() {
    let data = vec![0x00, 0x17, 0x80, 0x4F, 0xB7];
    let sl = &data[..];
    let (read, info) = format_info(sl).unwrap();
    assert_eq!(&sl[read..], &sl[4..]);
    assert_eq!(info, standard_format());
}

#[test]
fn mlp_parser_nibble_and_au_length_test() {
    let data = vec![0x51, 0x80, 0x1B, 0xE8];
    let sl = &data[..];
    assert_eq!(nibble_and_au_length(sl), Ok((2, (0x5, 0x180))));
}

#[test]
fn parser_nibble_and_au_length_test() {
    let data = vec![0x51, 0x80, 0x1B, 0xE8];
    let sl = &data[..];
    let (read, value) = nibble_and_au_length(sl).unwrap();
    assert_eq!(&sl[read..], &sl[2..]);
    assert_eq!(value, (0x5, 0x180));
}

#[test]
fn short_inputs_are_incomplete() {
    assert_eq!(nibble_and_au_length(&[0x51]), Err(ParseError::Incomplete));
    assert_eq!(format_info(&[0, 0, 0]), Err(ParseError::Incomplete));
    assert_eq!(channel_meaning(&CHANNEL_MEANING[..7]), Err(ParseError::Incomplete));
    assert_eq!(sync_header(&access_unit_head()[..20]), Err(ParseError::Incomplete));
}

#[test]
fn format_info_other_frequencies() {
    let (_, f) = format_info(&[0x9C, 0, 0, 1]).unwrap();
    assert_eq!(f.sampling_frequency, SamplingFrequency::K88_2);
    assert_eq!(f.six_ch_multichannel_type, MultichannelType::Unknown);
    assert_eq!(f.eight_ch_multichannel_type, MultichannelType::Unknown);
    assert_eq!(f.channel_information, 1);
    assert_eq!(format_info(&[0x30, 0, 0, 0]).unwrap().1.sampling_frequency, SamplingFrequency::Unknown);
    assert_eq!(SamplingFrequency::K44_1.value(), 44_100);
    assert_eq!(SamplingFrequency::K192.value(), 192_000);
    assert_eq!(SamplingFrequency::Unknown.value(), 1);
}

#[test]
fn channel_meaning_fields() {
    assert_eq!(channel_meaning(&CHANNEL_MEANING), Ok((8, expected_channel_meaning())));
    let mut with_extra = CHANNEL_MEANING.to_vec();
    with_extra[7] |= 1;
    with_extra.extend_from_slice(&[0x10, 0x00]);
    // one further 16-bit word, counted from the block's start
    assert_eq!(channel_meaning(&with_extra), Ok((2, expected_channel_meaning())));
}

#[test]
fn sync_header_with_major_sync() {
    let data = access_unit_head();
    let (read, header) = sync_header(&data).unwrap();
    assert_eq!(read, 32);
    assert_eq!(header.access_unit_length, 768);
    assert_eq!(header.input_timing, 7144);
    let info = header.major_sync_info.unwrap();
    assert_eq!(info.format_info, standard_format());
    assert_eq!(info.flags, 0x1000);
    assert!(info.variable_rate);
    assert_eq!(info.peak_data_rate, 3546);
    assert_eq!(info.substreams, 4);
    assert_eq!(info.extended_substream_info, 1);
    assert_eq!(info.substream_info, 204);
    assert_eq!(info.channel_meaning, expected_channel_meaning());
    assert_eq!(info.crc, 16159);
    assert_eq!(major_sync_info(&data[4..]).unwrap().0, 28);
}

#[test]
fn sync_header_without_major_sync() {
    let data = vec![0x51, 0x80, 0x1B, 0xE8, 0x00, 0x00, 0x00, 0x00, 0x00];
    assert_eq!(
        sync_header(&data),
        Ok((4, SyncHeader { access_unit_length: 768, input_timing: 7144, major_sync_info: None }))
    );
    assert_eq!(major_sync_info(&data[4..]), Err(ParseError::Invalid));
    let mut bad = access_unit_head();
    bad[12] = 0xB8;
    assert_eq!(sync_header(&bad).unwrap().1.major_sync_info, None);
}

#[test]
fn level_codes() {
    assert_eq!(dial_norm_adjust(0), -31);
    assert_eq!(dial_norm_adjust(1), -1);
    assert_eq!(dial_norm_adjust(63), -63);
    assert_eq!(mix_level_adjust(0), 70);
    assert_eq!(mix_level_adjust(63), 133);
}
