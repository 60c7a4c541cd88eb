use vstd::prelude::*;

verus! {

/// Why bytes do not parse.
#[derive(Debug, Clone, Copy, PartialEq, Eq, Structural)]
pub enum ParseError {
    /// The input ends before the structure does.
    Incomplete,
    /// The input does not hold the structure.
    Invalid,
}

pub open spec fn be16(b: Seq<u8>, i: int) -> u16 {
    ((b[i] as int) * 0x100 + (b[i + 1] as int)) as u16
}

pub open spec fn be32(b: Seq<u8>, i: int) -> u32 {
    ((b[i] as int) * 0x100_0000 + (b[i + 1] as int) * 0x1_0000 + (b[i + 2] as int) * 0x100 + (b[i
        + 3] as int)) as u32
}

pub open spec fn be64(b: Seq<u8>, i: int) -> u64 {
    ((be32(b, i) as int) * 0x1_0000_0000 + (be32(b, i + 4) as int)) as u64
}

fn read_be16(b: &[u8], i: usize) -> (r: u16)
    requires
        i + 2 <= b@.len(),
    ensures
        r == be16(b@, i as int),
{
    (b[i] as u16) * 0x100 + (b[i + 1] as u16)
}

fn read_be32(b: &[u8], i: usize) -> (r: u32)
    requires
        i + 4 <= b@.len(),
    ensures
        r == be32(b@, i as int),
{
    (b[i] as u32) * 0x100_0000 + (b[i + 1] as u32) * 0x1_0000 + (b[i + 2] as u32) * 0x100 + (b[i
        + 3] as u32)
}

fn read_be64(b: &[u8], i: usize) -> (r: u64)
    requires
        i + 8 <= b@.len(),
    ensures
        r == be64(b@, i as int),
{
    let n = b.len();
    assert(i + 4 <= n);
    let hi = read_be32(b, i) as u64;
    let lo = read_be32(b, i + 4) as u64;
    assert(hi * 0x1_0000_0000 + lo <= u64::MAX) by (nonlinear_arith)
        requires
            hi <= u32::MAX,
            lo <= u32::MAX,
    ;
    hi * 0x1_0000_0000 + lo
}

/// The first 4 bits and the next 12 bits of the input.
pub open spec fn spec_nibble_and_au_length(b: Seq<u8>) -> Result<(int, (u8, u16)), ParseError> {
    if b.len() < 2 {
        Err(ParseError::Incomplete)
    } else {
        Ok((2, ((b[0] / 16) as u8, (((b[0] % 16) as int) * 256 + (b[1] as int)) as u16)))
    }
}

/// Splits the first two bytes into a 4-bit nibble and a 12-bit length. On
/// success the result holds the number of bytes read and the two values.
pub fn nibble_and_au_length(input: &[u8]) -> (r: Result<(usize, (u8, u16)), ParseError>)
    ensures
        r matches Ok(v) ==> spec_nibble_and_au_length(input@) == Ok::<(int, (u8, u16)), ParseError>((v.0 as int, v.1)),
        r matches Err(e) ==> spec_nibble_and_au_length(input@) == Err::<(int, (u8, u16)), ParseError>(e),
{
    if input.len() < 2 {
        return Err(ParseError::Incomplete);
    }
    let b0 = input[0];
    let length: u16 = ((b0 % 16) as u16) * 256 + (input[1] as u16);
    Ok((2, (b0 / 16, length)))
}

#[derive(Debug, Clone, Copy, PartialEq, Eq, Structural)]
pub enum SamplingFrequency {
    K48,
    K96,
    K192,
    K44_1,
    K88_2,
    K176_4,
    Unknown,
}

impl SamplingFrequency {
    pub open spec fn spec_value(&self) -> u32 {
        match self {
            SamplingFrequency::K48 => 48_000,
            SamplingFrequency::K96 => 96_000,
            SamplingFrequency::K192 => 192_000,
            SamplingFrequency::K44_1 => 44_100,
            SamplingFrequency::K88_2 => 88_200,
            SamplingFrequency::K176_4 => 176_400,
            SamplingFrequency::Unknown => 1,
        }
    }

    /// The frequency in Hz; 1 where it is unknown.
    pub fn value(&self) -> (r: u32)
        ensures
            r == self.spec_value(),
    {
        match self {
            SamplingFrequency::K48 => 48_000,
            SamplingFrequency::K96 => 96_000,
            SamplingFrequency::K192 => 192_000,
            SamplingFrequency::K44_1 => 44_100,
            SamplingFrequency::K88_2 => 88_200,
            SamplingFrequency::K176_4 => 176_400,
            SamplingFrequency::Unknown => 1,
        }
    }
}

#[derive(Debug, Clone, Copy, PartialEq, Eq, Structural)]
pub enum MultichannelType {
    StandardLoudspeakerLayout,
    Unknown,
}

#[derive(Debug, Clone, Copy, PartialEq, Eq, Structural)]
pub struct FormatInfo {
    pub sampling_frequency: SamplingFrequency,
    pub six_ch_multichannel_type: MultichannelType,
    pub eight_ch_multichannel_type: MultichannelType,
    pub channel_information: u32,
}

pub open spec fn sampling_frequency_of(code: int) -> SamplingFrequency {
    if code == 0 {
        SamplingFrequency::K48
    } else if code == 1 {
        SamplingFrequency::K96
    } else if code == 2 {
        SamplingFrequency::K192
    } else if code == 8 {
        SamplingFrequency::K44_1
    } else if code == 9 {
        SamplingFrequency::K88_2
    } else if code == 10 {
        SamplingFrequency::K176_4
    } else {
        SamplingFrequency::Unknown
    }
}

pub open spec fn multichannel_type_of(bit: int) -> MultichannelType {
    if bit == 0 {
        MultichannelType::StandardLoudspeakerLayout
    } else {
        MultichannelType::Unknown
    }
}

/// The format word of a major sync block: the sampling frequency in its top
/// 4 bits, the multichannel types of the 6- and 8-channel presentations in
/// the next two, and 24 bits of channel information at the bottom.
pub open spec fn spec_format_info(w: u32) -> FormatInfo {
    FormatInfo {
        sampling_frequency: sampling_frequency_of((w / 0x1000_0000) as int),
        six_ch_multichannel_type: multichannel_type_of(((w / 0x800_0000) % 2) as int),
        eight_ch_multichannel_type: multichannel_type_of(((w / 0x400_0000) % 2) as int),
        channel_information: (w % 0x100_0000) as u32,
    }
}

pub fn format_info(input: &[u8]) -> (r: Result<(usize, FormatInfo), ParseError>)
    ensures
        input@.len() < 4 ==> r == Err::<(usize, FormatInfo), ParseError>(ParseError::Incomplete),
        input@.len() >= 4 ==> r == Ok::<(usize, FormatInfo), ParseError>(
            (4, spec_format_info(be32(input@, 0))),
        ),
{
    if input.len() < 4 {
        return Err(ParseError::Incomplete);
    }
    let w = read_be32(input, 0);
    let code = w / 0x1000_0000;
    let sampling_frequency = if code == 0 {
        SamplingFrequency::K48
    } else if code == 1 {
        SamplingFrequency::K96
    } else if code == 2 {
        SamplingFrequency::K192
    } else if code == 8 {
        SamplingFrequency::K44_1
    } else if code == 9 {
        SamplingFrequency::K88_2
    } else if code == 10 {
        SamplingFrequency::K176_4
    } else {
        SamplingFrequency::Unknown
    };
    let six = if (w / 0x800_0000) % 2 == 0 {
        MultichannelType::StandardLoudspeakerLayout
    } else {
        MultichannelType::Unknown
    };
    let eight = if (w / 0x400_0000) % 2 == 0 {
        MultichannelType::StandardLoudspeakerLayout
    } else {
        MultichannelType::Unknown
    };
    Ok(
        (
            4,
            FormatInfo {
                sampling_frequency,
                six_ch_multichannel_type: six,
                eight_ch_multichannel_type: eight,
                channel_information: w % 0x100_0000,
            },
        ),
    )
}

/// A dialogue normalization level in LKFS from its 6-bit code: the code
/// negated, with 0 standing for -31.
pub open spec fn spec_dial_norm(raw: u8) -> i8 {
    if raw == 0 {
        -31i8
    } else {
        (-(raw as int)) as i8
    }
}

pub fn dial_norm_adjust(raw: u8) -> (r: i8)
    requires
        raw < 64,
    ensures
        r == spec_dial_norm(raw),
{
    if raw == 0 {
        -31
    } else {
        -(raw as i8)
    }
}

/// A mix level in dB from its 6-bit code: 70 dB above it.
pub fn mix_level_adjust(raw: u8) -> (r: u8)
    requires
        raw < 64,
    ensures
        r == raw + 70,
{
    raw + 70
}


#[derive(Debug, Clone, Copy, PartialEq, Eq, Structural)]
pub struct ControlEnabled {
    pub two_ch: bool,
    pub six_ch: bool,
    pub eight_ch: bool,
}

/// Dialogue normalization levels in LKFS.
#[derive(Debug, Clone, Copy, PartialEq, Eq, Structural)]
pub struct DialNorm {
    pub two_ch: i8,
    pub six_ch: i8,
    pub eight_ch: i8,
}

/// Mix levels in dB.
#[derive(Debug, Clone, Copy, PartialEq, Eq, Structural)]
pub struct MixLevel {
    pub two_ch: u8,
    pub six_ch: u8,
    pub eight_ch: u8,
}

#[derive(Debug, Clone, Copy, PartialEq, Eq, Structural)]
pub struct ChSourceFormat {
    pub six_ch: u8,
    pub eight_ch: u8,
}

#[derive(Debug, Clone, Copy, PartialEq, Eq, Structural)]
pub struct ExtraChannelMeaning {
    pub length: u8,
}

#[derive(Debug, Clone, Copy, PartialEq, Eq, Structural)]
pub struct ChannelMeaning {
    pub ctrl_enabled: ControlEnabled,
    pub dial_norm: DialNorm,
    pub mix_level: MixLevel,
    pub source_format: ChSourceFormat,
    pub drc_start_up_gain: i8,
    pub extra_channel_meaning: Option<ExtraChannelMeaning>,
}

/// The fields of the 64-bit channel meaning word.
pub open spec fn spec_channel_meaning_word(main: u64) -> ChannelMeaning {
    let ce = (main / 0x80_0000_0000_0000) as u16;
    let multi = main / 4;
    ChannelMeaning {
        ctrl_enabled: ControlEnabled {
            two_ch: ce / 0x2000 != 0,
            six_ch: ce / 0x4000 != 0,
            eight_ch: ce / 0x8000 != 0,
        },
        dial_norm: DialNorm {
            two_ch: spec_dial_norm(((multi / 0x80_0000_0000) % 64) as u8),
            six_ch: spec_dial_norm(((multi / 0x1000_0000) % 32) as u8),
            eight_ch: spec_dial_norm(((multi / 0x1000) % 32) as u8),
        },
        mix_level: MixLevel {
            two_ch: (((multi / 0x2_0000_0000) % 64) + 70) as u8,
            six_ch: (((multi / 0x40_0000) % 64) + 70) as u8,
            eight_ch: (((multi / 0x40) % 64) + 70) as u8,
        },
        source_format: ChSourceFormat {
            six_ch: ((multi / 0x2_0000) % 32) as u8,
            eight_ch: (multi % 64) as u8,
        },
        drc_start_up_gain: ((main / 0x8000_0000_0000) % 128) as i8,
        extra_channel_meaning: None,
    }
}

/// The channel meaning block: a 64-bit word, and where its lowest bit is
/// set a 16-bit word whose top 4 bits count further 16-bit words. With those
/// the block reads as long as they are, counted from its start.
pub open spec fn spec_channel_meaning(c: Seq<u8>) -> Result<(int, ChannelMeaning), ParseError> {
    if c.len() < 8 {
        Err(ParseError::Incomplete)
    } else {
        let main = be64(c, 0);
        let m = spec_channel_meaning_word(main);
        if main % 2 == 0 {
            Ok((8, m))
        } else if c.len() < 10 {
            Err(ParseError::Incomplete)
        } else {
            let extra_length = (be16(c, 8) / 0x1000) as int * 2;
            if c.len() < extra_length {
                Err(ParseError::Incomplete)
            } else {
                Ok((extra_length, m))
            }
        }
    }
}

pub fn channel_meaning(input: &[u8]) -> (r: Result<(usize, ChannelMeaning), ParseError>)
    ensures
        r matches Ok(v) ==> spec_channel_meaning(input@) == Ok::<(int, ChannelMeaning), ParseError>((v.0 as int, v.1)),
        r matches Err(e) ==> spec_channel_meaning(input@) == Err::<(int, ChannelMeaning), ParseError>(e),
{
    if input.len() < 8 {
        return Err(ParseError::Incomplete);
    }
    let main = read_be64(input, 0);
    let ce = (main / 0x80_0000_0000_0000) as u16;
    let multi = main / 4;
    let m = ChannelMeaning {
        ctrl_enabled: ControlEnabled {
            two_ch: ce / 0x2000 != 0,
            six_ch: ce / 0x4000 != 0,
            eight_ch: ce / 0x8000 != 0,
        },
        dial_norm: DialNorm {
            two_ch: dial_norm_adjust(((multi / 0x80_0000_0000) % 64) as u8),
            six_ch: dial_norm_adjust(((multi / 0x1000_0000) % 32) as u8),
            eight_ch: dial_norm_adjust(((multi / 0x1000) % 32) as u8),
        },
        mix_level: MixLevel {
            two_ch: mix_level_adjust(((multi / 0x2_0000_0000) % 64) as u8),
            six_ch: mix_level_adjust(((multi / 0x40_0000) % 64) as u8),
            eight_ch: mix_level_adjust(((multi / 0x40) % 64) as u8),
        },
        source_format: ChSourceFormat {
            six_ch: ((multi / 0x2_0000) % 32) as u8,
            eight_ch: (multi % 64) as u8,
        },
        drc_start_up_gain: ((main / 0x8000_0000_0000) % 128) as i8,
        extra_channel_meaning: None,
    };
    if main % 2 == 0 {
        return Ok((8, m));
    }
    if input.len() < 10 {
        return Err(ParseError::Incomplete);
    }
    let extra_length: usize = (read_be16(input, 8) / 0x1000) as usize * 2;
    if input.len() < extra_length {
        return Err(ParseError::Incomplete);
    }
    Ok((extra_length, m))
}

#[derive(Debug, Clone, Copy, PartialEq, Eq, Structural)]
pub struct MajorSyncInfo {
    pub format_info: FormatInfo,
    pub flags: u16,
    pub variable_rate: bool,
    /// The peak data rate, in 1/16 bit per sample period.
    pub peak_data_rate: u16,
    pub substreams: u8,
    pub extended_substream_info: u8,
    pub substream_info: u8,
    pub channel_meaning: ChannelMeaning,
    pub crc: u16,
}

/// Checks for byte `t` at `pos`.
pub open spec fn spec_tag(b: Seq<u8>, pos: int, t: u8) -> Result<(), ParseError> {
    if b.len() <= pos {
        Err(ParseError::Incomplete)
    } else if b[pos] != t {
        Err(ParseError::Invalid)
    } else {
        Ok(())
    }
}

fn tag(b: &[u8], pos: usize, t: u8) -> (r: Result<(), ParseError>)
    ensures
        r == spec_tag(b@, pos as int, t),
{
    if b.len() <= pos {
        Err(ParseError::Incomplete)
    } else if b[pos] != t {
        Err(ParseError::Invalid)
    } else {
        Ok(())
    }
}

/// The major sync block: its signature, the format word, the bytes B7 52,
/// flags, 16 reserved bits, the data rate, the substream word, the channel
/// meaning block and a CRC.
pub open spec fn spec_major_sync_info(b: Seq<u8>) -> Result<(int, MajorSyncInfo), ParseError> {
    if spec_tag(b, 0, 0xF8) is Err {
        Err(spec_tag(b, 0, 0xF8)->Err_0)
    } else if spec_tag(b, 1, 0x72) is Err {
        Err(spec_tag(b, 1, 0x72)->Err_0)
    } else if spec_tag(b, 2, 0x6F) is Err {
        Err(spec_tag(b, 2, 0x6F)->Err_0)
    } else if spec_tag(b, 3, 0xBA) is Err {
        Err(spec_tag(b, 3, 0xBA)->Err_0)
    } else if b.len() < 8 {
        Err(ParseError::Incomplete)
    } else if spec_tag(b, 8, 0xB7) is Err {
        Err(spec_tag(b, 8, 0xB7)->Err_0)
    } else if spec_tag(b, 9, 0x52) is Err {
        Err(spec_tag(b, 9, 0x52)->Err_0)
    } else if b.len() < 18 {
        Err(ParseError::Incomplete)
    } else {
        match spec_channel_meaning(b.subrange(18, b.len() as int)) {
            Err(e) => Err(e),
            Ok((n, cm)) => if b.len() < 18 + n + 2 {
                Err(ParseError::Incomplete)
            } else {
                let data_rate = be16(b, 14);
                let substream_field = be16(b, 16);
                Ok(
                    (
                        18 + n + 2,
                        MajorSyncInfo {
                            format_info: spec_format_info(be32(b, 4)),
                            flags: be16(b, 10),
                            variable_rate: data_rate / 0x8000 != 0,
                            peak_data_rate: data_rate % 0x8000,
                            substreams: (substream_field / 0x1000) as u8,
                            extended_substream_info: ((substream_field / 0x100) % 4) as u8,
                            substream_info: (substream_field % 0x100) as u8,
                            channel_meaning: cm,
                            crc: be16(b, 18 + n),
                        },
                    ),
                )
            },
        }
    }
}

pub fn major_sync_info(input: &[u8]) -> (r: Result<(usize, MajorSyncInfo), ParseError>)
    ensures
        r matches Ok(v) ==> spec_major_sync_info(input@) == Ok::<(int, MajorSyncInfo), ParseError>((v.0 as int, v.1)),
        r matches Err(e) ==> spec_major_sync_info(input@) == Err::<(int, MajorSyncInfo), ParseError>(e),
{
    match tag(input, 0, 0xF8) {
        Err(e) => return Err(e),
        Ok(()) => {},
    }
    match tag(input, 1, 0x72) {
        Err(e) => return Err(e),
        Ok(()) => {},
    }
    match tag(input, 2, 0x6F) {
        Err(e) => return Err(e),
        Ok(()) => {},
    }
    match tag(input, 3, 0xBA) {
        Err(e) => return Err(e),
        Ok(()) => {},
    }
    if input.len() < 8 {
        return Err(ParseError::Incomplete);
    }
    match tag(input, 8, 0xB7) {
        Err(e) => return Err(e),
        Ok(()) => {},
    }
    match tag(input, 9, 0x52) {
        Err(e) => return Err(e),
        Ok(()) => {},
    }
    if input.len() < 18 {
        return Err(ParseError::Incomplete);
    }
    let rest = vstd::slice::slice_subrange(input, 18, input.len());
    let (n, cm) = match channel_meaning(rest) {
        Err(e) => return Err(e),
        Ok(v) => v,
    };
    if input.len() - 18 < n || input.len() - 18 - n < 2 {
        return Err(ParseError::Incomplete);
    }
    let format = match format_info(vstd::slice::slice_subrange(input, 4, 8)) {
        Ok((_, f)) => f,
        Err(e) => return Err(e),
    };
    proof {
        assert(be32(input@.subrange(4, 8), 0) == be32(input@, 4));
    }
    let data_rate = read_be16(input, 14);
    let substream_field = read_be16(input, 16);
    let info = MajorSyncInfo {
        format_info: format,
        flags: read_be16(input, 10),
        variable_rate: data_rate / 0x8000 != 0,
        peak_data_rate: data_rate % 0x8000,
        substreams: (substream_field / 0x1000) as u8,
        extended_substream_info: ((substream_field / 0x100) % 4) as u8,
        substream_info: (substream_field % 0x100) as u8,
        channel_meaning: cm,
        crc: read_be16(input, 18 + n),
    };
    Ok((18 + n + 2, info))
}

#[derive(Debug, Clone, Copy, PartialEq, Eq, Structural)]
pub struct SyncHeader {
    /// Total length of the access unit, in bytes.
    pub access_unit_length: u16,
    /// When the access unit enters the decoder, in sample periods modulo 65536.
    pub input_timing: u16,
    pub major_sync_info: Option<MajorSyncInfo>,
}

/// The sync header of an access unit: its length word, its input timing,
/// and a major sync block where one follows.
pub open spec fn spec_sync_header(b: Seq<u8>) -> Result<(int, SyncHeader), ParseError> {
    if b.len() < 4 {
        Err(ParseError::Incomplete)
    } else {
        let a = be16(b, 0);
        let h = SyncHeader {
            access_unit_length: ((a % 0x1000) * 2) as u16,
            input_timing: be16(b, 2),
            major_sync_info: None,
        };
        match spec_major_sync_info(b.subrange(4, b.len() as int)) {
            Ok((n, m)) => Ok((4 + n, SyncHeader { major_sync_info: Some(m), ..h })),
            Err(ParseError::Invalid) => Ok((4, h)),
            Err(ParseError::Incomplete) => Err(ParseError::Incomplete),
        }
    }
}

pub fn sync_header(input: &[u8]) -> (r: Result<(usize, SyncHeader), ParseError>)
    ensures
        r matches Ok(v) ==> spec_sync_header(input@) == Ok::<(int, SyncHeader), ParseError>((v.0 as int, v.1)),
        r matches Err(e) ==> spec_sync_header(input@) == Err::<(int, SyncHeader), ParseError>(e),
{
    if input.len() < 4 {
        return Err(ParseError::Incomplete);
    }
    let a = read_be16(input, 0);
    let h = SyncHeader {
        access_unit_length: (a % 0x1000) * 2,
        input_timing: read_be16(input, 2),
        major_sync_info: None,
    };
    match major_sync_info(vstd::slice::slice_subrange(input, 4, input.len())) {
        Ok((n, m)) => Ok((4 + n, SyncHeader { major_sync_info: Some(m), ..h })),
        Err(ParseError::Invalid) => Ok((4, h)),
        Err(ParseError::Incomplete) => Err(ParseError::Incomplete),
    }
}

} // verus!
