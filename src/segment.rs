use vstd::prelude::*;

use crate::error::{AVError, DemuxErr};
use crate::truehd::ThdFrameHeader;

verus! {

/// Longest access unit that a header can declare, in bytes.
pub const MAX_ACCESS_UNIT_LENGTH: u64 = 8190;

/// The group after an access unit with header `h` joins it: a major sync
/// starts a new group.
pub open spec fn group_after<T>(group: Seq<T>, has_major_sync: bool, item: T) -> Seq<T> {
    if has_major_sync {
        seq![item]
    } else {
        group.push(item)
    }
}

/// The bytes of each payload.
pub open spec fn payload_views(p: Seq<Vec<u8>>) -> Seq<Seq<u8>> {
    p.map_values(|v: Vec<u8>| v@)
}

/// The state of one pass over the packets of a segment: the frames counted,
/// the bytes copied to the output, and the current group of access units
/// (all of them since the last major sync).
#[derive(Debug, Clone)]
pub struct SegmentReader {
    pub num_frames: u32,
    pub num_video_frames: u32,
    /// Headers of the current group.
    pub group: Vec<ThdFrameHeader>,
    /// Payloads of the current group, in the order of `group`.
    pub group_payloads: Vec<Vec<u8>>,
    /// Bytes of TrueHD payload copied to the output.
    pub bytes_written: u64,
}

impl SegmentReader {
    pub open spec fn wf(&self) -> bool {
        &&& self.group@.len() == self.group_payloads@.len()
        &&& self.group@.len() <= self.num_frames
        &&& self.bytes_written <= self.num_frames * MAX_ACCESS_UNIT_LENGTH
        &&& forall|i: int|
            0 <= i < self.group@.len() ==> {
                &&& #[trigger] self.group@[i] == ThdFrameHeader::spec_decode(
                    self.group_payloads@[i]@,
                )
                &&& self.group@[i].length == self.group_payloads@[i]@.len()
                &&& self.group@[i].length <= self.bytes_written
                &&& (i > 0 ==> !self.group@[i].has_major_sync)
            }
    }

    pub fn new() -> (r: SegmentReader)
        ensures
            r.wf(),
            r.num_frames == 0,
            r.num_video_frames == 0,
            r.group@.len() == 0,
            r.bytes_written == 0,
    {
        SegmentReader {
            num_frames: 0,
            num_video_frames: 0,
            group: Vec::new(),
            group_payloads: Vec::new(),
            bytes_written: 0,
        }
    }

    /// Counts a packet of the video stream.
    pub fn on_video_packet(&mut self)
        requires
            old(self).num_video_frames < u32::MAX,
        ensures
            *final(self) == (SegmentReader {
                num_video_frames: (old(self).num_video_frames + 1) as u32,
                ..*old(self)
            }),
    {
        self.num_video_frames = self.num_video_frames + 1;
    }

    /// Takes in a packet of the TrueHD stream. On success its bytes are to be
    /// copied to the output as they are.
    pub fn on_audio_packet(&mut self, bytes: &[u8]) -> (r: Result<ThdFrameHeader, AVError>)
        requires
            old(self).wf(),
            old(self).num_frames < u32::MAX,
        ensures
            final(self).wf(),
            bytes@.len() < 8 ==> r is Err && r->Err_0.is_demux(
                DemuxErr::TruncatedFrameHeader(bytes@.len() as usize),
            ),
            bytes@.len() >= 8 && ThdFrameHeader::spec_decode(bytes@).length != bytes@.len()
                ==> r is Err && r->Err_0.is_demux(
                DemuxErr::FrameLengthMismatch {
                    declared: ThdFrameHeader::spec_decode(bytes@).length,
                    actual: bytes@.len() as usize,
                },
            ),
            r is Err ==> *final(self) == *old(self),
            bytes@.len() >= 8 && ThdFrameHeader::spec_decode(bytes@).length == bytes@.len()
                ==> r is Ok,
            r is Ok ==> {
                let h = r->Ok_0;
                &&& h == ThdFrameHeader::spec_decode(bytes@)
                &&& final(self).num_frames == old(self).num_frames + 1
                &&& final(self).num_video_frames == old(self).num_video_frames
                &&& final(self).bytes_written == old(self).bytes_written + bytes@.len()
                &&& final(self).group@ == group_after(old(self).group@, h.has_major_sync, h)
                &&& payload_views(final(self).group_payloads@) == group_after(
                    payload_views(old(self).group_payloads@),
                    h.has_major_sync,
                    bytes@,
                )
            },
    {
        let header = match ThdFrameHeader::from_bytes(bytes) {
            Some(h) => h,
            None => {
                return Err(AVError::DemuxErr(DemuxErr::TruncatedFrameHeader(bytes.len())));
            },
        };
        if header.length != bytes.len() {
            return Err(
                AVError::DemuxErr(
                    DemuxErr::FrameLengthMismatch { declared: header.length, actual: bytes.len() },
                ),
            );
        }
        proof {
            let b = bytes@;
            crate::truehd::lemma_declared_length_bound(b[0], b[1]);
        }
        let ghost ob = self.bytes_written as int;
        let ghost onf = self.num_frames as int;
        if header.has_major_sync {
            self.group.clear();
            self.group_payloads.clear();
        }
        self.group.push(header);
        let ghost before = payload_views(self.group_payloads@);
        let payload = vstd::slice::slice_to_vec(bytes);
        self.group_payloads.push(payload);
        assert(payload_views(self.group_payloads@) =~= if header.has_major_sync {
            seq![bytes@]
        } else {
            before.push(bytes@)
        });
        self.bytes_written = self.bytes_written + bytes.len() as u64;
        self.num_frames = self.num_frames + 1;
        proof {
            assert(self.bytes_written <= self.num_frames * MAX_ACCESS_UNIT_LENGTH) by (
            nonlinear_arith)
                requires
                    self.bytes_written == ob + bytes@.len(),
                    ob <= onf * MAX_ACCESS_UNIT_LENGTH,
                    bytes@.len() <= MAX_ACCESS_UNIT_LENGTH,
                    self.num_frames == onf + 1,
            ;
            let g = self.group@;
            assert forall|i: int| 0 <= i < g.len() implies {
                &&& #[trigger] g[i] == ThdFrameHeader::spec_decode(self.group_payloads@[i]@)
                &&& g[i].length == self.group_payloads@[i]@.len()
                &&& g[i].length <= self.bytes_written
                &&& (i > 0 ==> !g[i].has_major_sync)
            } by {
                if i < g.len() - 1 {
                    assert(!header.has_major_sync);
                    assert(g[i] == old(self).group@[i]);
                    assert(self.group_payloads@[i] == old(self).group_payloads@[i]);
                }
            }
        }
        Ok(header)
    }
}


/// Counts the access units of a TrueHD stream, and those among them that
/// carry a major sync.
#[derive(Debug, Clone, Copy, PartialEq, Eq, Structural)]
pub struct FrameCounter {
    pub num_frames: u32,
    pub num_major_frames: u32,
}

impl FrameCounter {
    pub fn new() -> (r: FrameCounter)
        ensures
            r == (FrameCounter { num_frames: 0, num_major_frames: 0 }),
    {
        FrameCounter { num_frames: 0, num_major_frames: 0 }
    }

    /// Counts one packet of the stream.
    pub fn add_packet(&mut self, bytes: &[u8]) -> (r: Result<ThdFrameHeader, AVError>)
        requires
            old(self).num_major_frames <= old(self).num_frames < u32::MAX,
        ensures
            final(self).num_major_frames <= final(self).num_frames,
            bytes@.len() < 8 ==> r is Err && r->Err_0.is_demux(
                DemuxErr::TruncatedFrameHeader(bytes@.len() as usize),
            ) && *final(self) == *old(self),
            bytes@.len() >= 8 ==> {
                let h = ThdFrameHeader::spec_decode(bytes@);
                &&& r is Ok && r->Ok_0 == h
                &&& final(self).num_frames == old(self).num_frames + 1
                &&& final(self).num_major_frames == old(self).num_major_frames + if h.has_major_sync {
                    1int
                } else {
                    0int
                }
            },
    {
        match ThdFrameHeader::from_bytes(bytes) {
            Some(h) => {
                if h.has_major_sync {
                    self.num_major_frames = self.num_major_frames + 1;
                }
                self.num_frames = self.num_frames + 1;
                Ok(h)
            },
            None => Err(AVError::DemuxErr(DemuxErr::TruncatedFrameHeader(bytes.len()))),
        }
    }
}


/// Hands out the payload of one packet in pieces.
pub struct AVPacketReader {
    data: Vec<u8>,
    position: usize,
}

impl AVPacketReader {
    pub closed spec fn spec_data(&self) -> Seq<u8> {
        self.data@
    }

    /// Bytes handed out so far.
    pub closed spec fn spec_position(&self) -> int {
        self.position as int
    }

    pub open spec fn wf(&self) -> bool {
        self.spec_position() <= self.spec_data().len()
    }

    pub fn new(packet: &[u8]) -> (r: AVPacketReader)
        ensures
            r.wf(),
            r.spec_data() == packet@,
            r.spec_position() == 0,
    {
        AVPacketReader { data: vstd::slice::slice_to_vec(packet), position: 0 }
    }

    /// The next at most `max` bytes of the payload; none once it is all read.
    pub fn read(&mut self, max: usize) -> (r: Vec<u8>)
        requires
            old(self).wf(),
        ensures
            final(self).wf(),
            final(self).spec_data() == old(self).spec_data(),
            ({
                let p = old(self).spec_position();
                let left = old(self).spec_data().len() - p;
                let n = if left <= max { left } else { max as int };
                &&& r@ == old(self).spec_data().subrange(p, p + n)
                &&& final(self).spec_position() == p + n
            }),
    {
        let left: usize = self.data.len() - self.position;
        let n: usize = if left <= max { left } else { max };
        let end: usize = self.position + n;
        let mut out: Vec<u8> = Vec::with_capacity(n);
        let mut i: usize = self.position;
        while i < end
            invariant
                self.position <= i <= end <= self.data@.len(),
                out@ == self.data@.subrange(self.position as int, i as int),
            decreases end - i,
        {
            out.push(self.data[i]);
            i = i + 1;
            assert(out@ == self.data@.subrange(self.position as int, i as int));
        }
        self.position = end;
        out
    }
}

} // verus!
