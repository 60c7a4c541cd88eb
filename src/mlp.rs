use vstd::prelude::*;

use crate::truehd::{be_word, declared_length, MAJOR_SYNC_SIGNATURE};

verus! {

/// Where one access unit lies in a TrueHD elementary stream.
#[derive(Debug, Clone, Copy, PartialEq, Eq, Structural)]
pub struct MlpFrame {
    pub segment: u16,
    /// Position of the access unit's first byte in the stream.
    pub offset: usize,
    /// Length of the access unit in bytes, its header included.
    pub length: usize,
    /// When the access unit enters the decoder, in sample periods modulo 65536.
    pub input_timing: u16,
    pub has_major_sync: bool,
}

/// The access unit that starts at `offset` of `data`, where a whole one
/// does: its header declares at least its own 8 bytes, and all of the
/// declared bytes are there.
pub open spec fn frame_at(data: Seq<u8>, offset: int, segment: u16) -> Option<MlpFrame> {
    if offset < 0 || data.len() < offset + 8 {
        None
    } else {
        let len = declared_length(data[offset], data[offset + 1]) as int;
        if len < 8 || data.len() < offset + len {
            None
        } else {
            Some(
                MlpFrame {
                    segment,
                    offset: offset as usize,
                    length: len as usize,
                    input_timing: ((data[offset + 2] as int) * 256 + (data[offset
                        + 3] as int)) as u16,
                    has_major_sync: be_word(
                        data[offset + 4],
                        data[offset + 5],
                        data[offset + 6],
                        data[offset + 7],
                    ) == MAJOR_SYNC_SIGNATURE as nat,
                },
            )
        }
    }
}

/// Number of whole access units in `data` from `offset` on, read one after
/// the other until one is cut short or malformed.
pub open spec fn frame_count_from(data: Seq<u8>, offset: int) -> nat
    decreases data.len() - offset,
{
    if offset < 0 || data.len() < offset + 8 {
        0
    } else {
        let len = declared_length(data[offset], data[offset + 1]) as int;
        if len < 8 || data.len() < offset + len {
            0
        } else {
            1 + frame_count_from(data, offset + len)
        }
    }
}

/// Walks the access units of a TrueHD elementary stream held in memory.
pub struct MlpIterator {
    data: Vec<u8>,
    segment: u16,
    offset: usize,
}

impl MlpIterator {
    pub closed spec fn spec_data(&self) -> Seq<u8> {
        self.data@
    }

    pub closed spec fn spec_segment(&self) -> u16 {
        self.segment
    }

    /// Position of the next access unit.
    pub closed spec fn spec_offset(&self) -> int {
        self.offset as int
    }

    pub open spec fn wf(&self) -> bool {
        self.spec_offset() <= self.spec_data().len()
    }

    pub fn new(data: Vec<u8>) -> (r: MlpIterator)
        ensures
            r.wf(),
            r.spec_data() == data@,
            r.spec_segment() == 0,
            r.spec_offset() == 0,
    {
        MlpIterator::with_segment(data, 0)
    }

    pub fn with_segment(data: Vec<u8>, segment: u16) -> (r: MlpIterator)
        ensures
            r.wf(),
            r.spec_data() == data@,
            r.spec_segment() == segment,
            r.spec_offset() == 0,
    {
        MlpIterator { data, segment, offset: 0 }
    }

    /// The next access unit, none once the stream ends or an access unit is
    /// cut short or malformed.
    pub fn next(&mut self) -> (r: Option<MlpFrame>)
        requires
            old(self).wf(),
        ensures
            final(self).wf(),
            r == frame_at(old(self).spec_data(), old(self).spec_offset(), old(self).spec_segment()),
            final(self).spec_data() == old(self).spec_data(),
            final(self).spec_segment() == old(self).spec_segment(),
            r is None ==> final(self).spec_offset() == old(self).spec_offset(),
            r is Some ==> final(self).spec_offset() == old(self).spec_offset()
                + r->Some_0.length,
    {
        let o = self.offset;
        if self.data.len() - o < 8 {
            return None;
        }
        let b0 = self.data[o];
        let hi: usize = (b0 & 0x0f) as usize;
        let lo: usize = self.data[o + 1] as usize;
        assert((b0 & 0x0f) as nat == (b0 as nat) % 16) by (bit_vector);
        let len: usize = (hi * 256 + lo) * 2;
        if len < 8 || self.data.len() - o < len {
            return None;
        }
        let input_timing: u16 = (self.data[o + 2] as u16) * 256 + (self.data[o + 3] as u16);
        let word: u32 = (self.data[o + 4] as u32) * 0x100_0000 + (self.data[o + 5] as u32)
            * 0x1_0000 + (self.data[o + 6] as u32) * 0x100 + (self.data[o + 7] as u32);
        let frame = MlpFrame {
            segment: self.segment,
            offset: o,
            length: len,
            input_timing,
            has_major_sync: word == MAJOR_SYNC_SIGNATURE,
        };
        self.offset = o + len;
        Some(frame)
    }

    /// Number of access units from the current position on.
    pub fn count(self) -> (r: usize)
        requires
            self.wf(),
        ensures
            r == frame_count_from(self.spec_data(), self.spec_offset()),
    {
        let mut it = self;
        let mut n: usize = 0;
        let mut done = false;
        while !done
            invariant
                it.wf(),
                n + frame_count_from(it.spec_data(), it.spec_offset()) == frame_count_from(
                    self.spec_data(),
                    self.spec_offset(),
                ),
                n <= it.spec_offset() / 8,
                done ==> frame_count_from(it.spec_data(), it.spec_offset()) == 0,
            decreases it.spec_data().len() - it.spec_offset() + (if done { 0int } else { 1int }),
        {
            match it.next() {
                Some(_) => {
                    n = n + 1;
                },
                None => {
                    done = true;
                },
            }
        }
        n
    }
}

/// Reads the bytes of one access unit out of the stream it lies in.
pub struct MlpFrameReader {
    frame: MlpFrame,
    bytes_read: usize,
}

impl MlpFrameReader {
    pub closed spec fn spec_frame(&self) -> MlpFrame {
        self.frame
    }

    /// Bytes of the access unit handed out so far.
    pub closed spec fn spec_bytes_read(&self) -> int {
        self.bytes_read as int
    }

    pub open spec fn wf(&self) -> bool {
        &&& self.spec_bytes_read() <= self.spec_frame().length
        &&& self.spec_frame().offset + self.spec_frame().length <= usize::MAX
    }

    pub fn new(frame: &MlpFrame) -> (r: MlpFrameReader)
        requires
            frame.offset + frame.length <= usize::MAX,
        ensures
            r.wf(),
            r.spec_frame() == *frame,
            r.spec_bytes_read() == 0,
    {
        MlpFrameReader { frame: *frame, bytes_read: 0 }
    }

    /// The next at most `max` bytes of the access unit, taken from `stream`;
    /// fewer where the stream ends first, none once the access unit is read.
    pub fn read(&mut self, stream: &[u8], max: usize) -> (r: Vec<u8>)
        requires
            old(self).wf(),
        ensures
            final(self).wf(),
            final(self).spec_frame() == old(self).spec_frame(),
            ({
                let start = old(self).spec_frame().offset + old(self).spec_bytes_read();
                let left = old(self).spec_frame().length - old(self).spec_bytes_read();
                let want = if left <= max { left } else { max as int };
                let end = if start + want <= stream@.len() { start + want } else { stream@.len() as int };
                &&& r@ == (if start < end { stream@.subrange(start, end) } else { Seq::<u8>::empty() })
                &&& final(self).spec_bytes_read() == old(self).spec_bytes_read() + r@.len()
            }),
    {
        let start: usize = self.frame.offset + self.bytes_read;
        let left: usize = self.frame.length - self.bytes_read;
        let want: usize = if left <= max { left } else { max };
        let end: usize = if want <= stream.len() && start <= stream.len() - want {
            start + want
        } else {
            stream.len()
        };
        let mut out: Vec<u8> = Vec::new();
        if start < end {
            let mut i: usize = start;
            while i < end
                invariant
                    start <= i <= end <= stream@.len(),
                    out@ == stream@.subrange(start as int, i as int),
                decreases end - i,
            {
                out.push(stream[i]);
                i = i + 1;
                assert(out@ == stream@.subrange(start as int, i as int));
            }
        }
        self.bytes_read = self.bytes_read + out.len();
        out
    }
}

} // verus!
