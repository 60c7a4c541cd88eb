use vstd::prelude::*;

use crate::timing::Framerate;
verus! {

#[verifier::external_type_specification]
#[verifier::external_body]
pub struct ExIoError(std::io::Error);

#[verifier::external_type_specification]
#[verifier::external_body]
pub struct ExPathBuf(std::path::PathBuf);

#[derive(Debug)]
pub enum AVError {
    IoErr(std::io::Error),
    FFMpegErr(i32),
    DemuxErr(DemuxErr),
    OtherErr(OtherErr),
}

#[derive(Debug, Clone, Copy, PartialEq, Eq, Structural)]
pub enum DemuxErr {
    NoVideoStreamFound,
    NoTrueHdStreamFound,
    NoTrueHdFramesEncountered,
    SelectedTrueHdStreamNotFound(i32),
    /// A TrueHD packet shorter than the 8-byte access unit header.
    TruncatedFrameHeader(usize),
    /// An access unit whose header declares another length than its packet has.
    FrameLengthMismatch { declared: usize, actual: usize },
    /// A video stream whose frame rate is not a positive number of frames per second.
    InvalidFrameRate(Framerate),
    /// A TrueHD stream with a sample rate of 0.
    InvalidSampleRate(u32),
    /// The exact drift of audio against video grew out of the range it is
    /// held in.
    DriftOutOfRange,
}

#[derive(Debug)]
pub enum OtherErr {
    FilePathIsNotUtf8(std::path::PathBuf),
}

impl AVError {
    /// Whether this is the given demux error.
    pub open spec fn is_demux(&self, e: DemuxErr) -> bool {
        match self {
            AVError::DemuxErr(d) => *d == e,
            _ => false,
        }
    }
}

impl From<DemuxErr> for AVError {
    fn from(err: DemuxErr) -> (r: AVError) {
        AVError::DemuxErr(err)
    }
}

impl vstd::std_specs::convert::FromSpecImpl<DemuxErr> for AVError {
    open spec fn obeys_from_spec() -> bool {
        true
    }

    open spec fn from_spec(err: DemuxErr) -> AVError {
        AVError::DemuxErr(err)
    }
}

impl From<OtherErr> for AVError {
    fn from(err: OtherErr) -> (r: AVError) {
        AVError::OtherErr(err)
    }
}

impl vstd::std_specs::convert::FromSpecImpl<OtherErr> for AVError {
    open spec fn obeys_from_spec() -> bool {
        true
    }

    open spec fn from_spec(err: OtherErr) -> AVError {
        AVError::OtherErr(err)
    }
}

impl From<std::io::Error> for AVError {
    fn from(err: std::io::Error) -> (r: AVError) {
        AVError::IoErr(err)
    }
}

impl vstd::std_specs::convert::FromSpecImpl<std::io::Error> for AVError {
    open spec fn obeys_from_spec() -> bool {
        true
    }

    open spec fn from_spec(err: std::io::Error) -> AVError {
        AVError::IoErr(err)
    }
}

} // verus!
