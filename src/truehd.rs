use vstd::prelude::*;

verus! {

/// The four bytes that open the major sync block of an access unit.
pub const MAJOR_SYNC_SIGNATURE: u32 = 0xf872_6fba;

/// Length in bytes of an access unit, as its first two bytes declare it
/// (a 12-bit count of 16-bit words).
pub open spec fn declared_length(b0: u8, b1: u8) -> nat {
    (((b0 as nat) % 16) * 256 + (b1 as nat)) * 2
}

/// No access unit is declared longer than 8190 bytes.
pub proof fn lemma_declared_length_bound(b0: u8, b1: u8)
    ensures
        declared_length(b0, b1) <= 8190,
{
}

/// The big-endian 32-bit word formed by four bytes.
pub open spec fn be_word(b0: u8, b1: u8, b2: u8, b3: u8) -> nat {
    (b0 as nat) * 0x100_0000 + (b1 as nat) * 0x1_0000 + (b2 as nat) * 0x100 + (b3 as nat)
}

/// Whether the bytes 4 to 8 of an access unit hold the major sync signature.
pub open spec fn major_sync_at(b: Seq<u8>) -> bool
    recommends
        b.len() >= 8,
{
    be_word(b[4], b[5], b[6], b[7]) == MAJOR_SYNC_SIGNATURE as nat
}

/// A very light-weight header that only holds a length and whether the
/// access unit carries a major sync block.
#[derive(Debug, Clone, Copy, PartialEq, Eq, Structural)]
pub struct ThdFrameHeader {
    pub length: usize,
    pub has_major_sync: bool,
}

impl ThdFrameHeader {
    /// The header that the first eight bytes of `b` describe.
    pub open spec fn spec_decode(b: Seq<u8>) -> ThdFrameHeader
        recommends
            b.len() >= 8,
    {
        ThdFrameHeader {
            length: declared_length(b[0], b[1]) as usize,
            has_major_sync: major_sync_at(b),
        }
    }

    pub fn from_bytes(bytes: &[u8]) -> (r: Option<ThdFrameHeader>)
        ensures
            bytes@.len() < 8 ==> r.is_none(),
            bytes@.len() >= 8 ==> r == Some(Self::spec_decode(bytes@)),
    {
        if bytes.len() < 8 {
            return None;
        }
        let hi: usize = (bytes[0] & 0x0f) as usize;
        let lo: usize = bytes[1] as usize;
        let length: usize = (hi * 256 + lo) * 2;
        let b0 = bytes[0];
        assert((b0 & 0x0f) as nat == (b0 as nat) % 16) by (bit_vector);
        let word: u32 = (bytes[4] as u32) * 0x100_0000 + (bytes[5] as u32) * 0x1_0000
            + (bytes[6] as u32) * 0x100 + (bytes[7] as u32);
        Some(ThdFrameHeader { length, has_major_sync: word == MAJOR_SYNC_SIGNATURE })
    }
}


/// The signed 32-bit integer whose little-endian bytes are `b`.
pub open spec fn le_word(b: [u8; 4]) -> int {
    let u = (b[0] as int) + (b[1] as int) * 0x100 + (b[2] as int) * 0x1_0000 + (b[3] as int)
        * 0x100_0000;
    if u >= 0x8000_0000 { u - 0x1_0000_0000 } else { u }
}

/// The signed 32-bit integer whose big-endian bytes are `b`.
pub open spec fn be_signed_word(b: [u8; 4]) -> int {
    let u = be_word(b[0], b[1], b[2], b[3]) as int;
    if u >= 0x8000_0000 { u - 0x1_0000_0000 } else { u }
}

/// Integer division that truncates toward zero, as Rust's `/` does.
pub open spec fn div_trunc(a: int, d: int) -> int
    recommends
        d > 0,
{
    if a >= 0 { a / d } else { -((-a) / d) }
}

/// Relies on `i32::from_ne_bytes`: the bytes read in the machine's own
/// byte order, which is little- or big-endian.
#[verifier::external_body]
fn native_word(b: [u8; 4]) -> (r: i32)
    ensures
        r as int == le_word(b) || r as int == be_signed_word(b),
{
    i32::from_ne_bytes(b)
}

/// One PCM sample of a decoded access unit: a 24-bit value and the index of
/// the channel it belongs to.
#[derive(Debug, Clone, Copy, PartialEq, Eq, Structural)]
pub struct ThdSample {
    pub value: i32,
    pub channel: u8,
}

impl ThdSample {
    /// A sample from a 32-bit word in the machine's byte order, of which the
    /// lowest byte is padding: the word divided by 256, truncated toward zero.
    pub fn from_bytes(bytes: [u8; 4], channel: u8) -> (r: Self)
        ensures
            r.value as int == div_trunc(le_word(bytes), 256) || r.value as int == div_trunc(
                be_signed_word(bytes),
                256,
            ),
            r.channel == channel,
    {
        let word = native_word(bytes);
        Self::from_word(word, channel)
    }

    /// A sample from a 32-bit word whose lowest byte is padding.
    pub fn from_word(word: i32, channel: u8) -> (r: Self)
        ensures
            r.value as int == div_trunc(word as int, 256),
            r.channel == channel,
    {
        let v: i32 = if word >= 0 {
            word / 256
        } else {
            let m: i64 = -(word as i64);
            let q: i64 = m / 256;
            (-q) as i32
        };
        ThdSample::new(v, channel)
    }

    pub fn new(sample: i32, channel: u8) -> (r: Self)
        ensures
            r.value == sample,
            r.channel == channel,
    {
        ThdSample { value: sample, channel }
    }
}


/// Stream parameters of a TrueHD stream.
#[derive(Debug, Clone, Copy, PartialEq, Eq, Structural)]
pub struct ThdMetadata {
    pub channels: u8,
    pub sample_rate: u32,
    /// Nominal number of samples per access unit (a 1/1200 s frame).
    pub frame_size: u32,
}

impl ThdMetadata {
    /// The parameters of a stream with the given channel count and sample rate.
    pub fn new(channels: u8, sample_rate: u32) -> (r: ThdMetadata)
        ensures
            r.channels == channels,
            r.sample_rate == sample_rate,
            r.frame_size == sample_rate / 1200,
    {
        ThdMetadata { channels, sample_rate, frame_size: sample_rate / 1200 }
    }
}

/// Distance between two sample values.
pub open spec fn abs_diff(a: i32, b: i32) -> int {
    if a >= b { a - b } else { b - a }
}

pub open spec fn abs_int(a: i32) -> int {
    if a >= 0 { a as int } else { -(a as int) }
}

/// The largest distance between index-aligned samples among the first `n`
/// pairs, 0 where `n` is 0.
pub open spec fn max_distance_upto(a: Seq<ThdSample>, b: Seq<ThdSample>, n: int) -> int
    decreases n,
{
    if n <= 0 {
        0
    } else {
        let d = abs_diff(a[n - 1].value, b[n - 1].value);
        let m = max_distance_upto(a, b, n - 1);
        if d > m { d } else { m }
    }
}

/// Number of index-aligned pairs of two sample sequences.
pub open spec fn paired_len(a: Seq<ThdSample>, b: Seq<ThdSample>) -> int {
    if a.len() <= b.len() { a.len() as int } else { b.len() as int }
}

/// The sample at index `i` of a PCM buffer holds the word made of the bytes
/// `4 * i .. 4 * i + 4`, in one of the two byte orders, divided by 256.
pub open spec fn sample_from_buffer(v: i32, b: Seq<u8>, i: int) -> bool {
    let w = [b[4 * i], b[4 * i + 1], b[4 * i + 2], b[4 * i + 3]];
    v as int == div_trunc(le_word(w), 256) || v as int == div_trunc(be_signed_word(w), 256)
}

/// The PCM content of one decoded access unit.
#[derive(Debug, Clone)]
pub struct DecodedThdFrame {
    pub samples: Vec<ThdSample>,
    pub metadata: ThdMetadata,
}

/// A decoded access unit, as decoded and downmixed to one channel.
#[derive(Debug, Clone)]
pub struct ThdDecodePacket {
    pub original: DecodedThdFrame,
    pub mono: DecodedThdFrame,
}

impl DecodedThdFrame {
    /// Whether every sample's absolute value is below `threshold`.
    pub open spec fn spec_is_silence(&self, threshold: i32) -> bool {
        forall|i: int|
            0 <= i < self.samples@.len() ==> #[trigger] abs_int(self.samples@[i].value)
                < threshold
    }

    /// Whether every index-aligned pair of samples is at most `tolerance` apart.
    pub open spec fn spec_matches_approximately(&self, other: &DecodedThdFrame, tolerance: u32) -> bool {
        forall|i: int|
            0 <= i < paired_len(self.samples@, other.samples@) ==> #[trigger] abs_diff(
                self.samples@[i].value,
                other.samples@[i].value,
            ) <= tolerance
    }

    pub open spec fn spec_max_distance(&self, other: &DecodedThdFrame) -> int {
        max_distance_upto(
            self.samples@,
            other.samples@,
            paired_len(self.samples@, other.samples@),
        )
    }

    /// Splits an interleaved PCM buffer of 32-bit samples into samples tagged
    /// with their channel.
    pub fn new(bytes: &[u8], bytes_per_sample: usize, channels: u8, sample_rate: u32) -> (r:
        DecodedThdFrame)
        requires
            bytes_per_sample == 4,
            channels > 0,
        ensures
            r.samples@.len() == bytes@.len() / 4,
            forall|i: int|
                0 <= i < r.samples@.len() ==> (#[trigger] r.samples@[i]).channel as int == i
                    % (channels as int) && sample_from_buffer(r.samples@[i].value, bytes@, i),
            r.metadata == (ThdMetadata {
                channels,
                sample_rate,
                frame_size: sample_rate / 1200,
            }),
    {
        let len: usize = bytes.len();
        let n: usize = len / bytes_per_sample;
        let mut samples: Vec<ThdSample> = Vec::with_capacity(n);
        let mut i: usize = 0;
        while i < n
            invariant
                len == bytes@.len(),
                n == bytes@.len() / 4,
                bytes_per_sample == 4,
                channels > 0,
                i <= n,
                samples@.len() == i,
                forall|j: int|
                    0 <= j < i ==> (#[trigger] samples@[j]).channel as int == j % (channels as int)
                        && sample_from_buffer(samples@[j].value, bytes@, j),
            decreases n - i,
        {
            assert(4 * i + 4 <= bytes@.len()) by (nonlinear_arith)
                requires
                    i < n,
                    n == bytes@.len() / 4,
            ;
            let k: usize = 4 * i;
            let word = [bytes[k], bytes[k + 1], bytes[k + 2], bytes[k + 3]];
            let channel: u8 = (i % (channels as usize)) as u8;
            let sample = ThdSample::from_bytes(word, channel);
            samples.push(sample);
            i = i + 1;
        }
        DecodedThdFrame { samples, metadata: ThdMetadata::new(channels, sample_rate) }
    }

    /// Whether every sample's absolute value is strictly below `threshold`.
    pub fn is_silence(&self, threshold: i32) -> (r: bool)
        ensures
            r == self.spec_is_silence(threshold),
    {
        let mut i: usize = 0;
        while i < self.samples.len()
            invariant
                i <= self.samples@.len(),
                forall|j: int| 0 <= j < i ==> #[trigger] abs_int(self.samples@[j].value) < threshold,
            decreases self.samples@.len() - i,
        {
            let v: i64 = self.samples[i].value as i64;
            let a: i64 = if v >= 0 { v } else { -v };
            if a >= threshold as i64 {
                assert(abs_int(self.samples@[i as int].value) >= threshold);
                return false;
            }
            i = i + 1;
        }
        true
    }

    /// The largest distance between index-aligned samples of the two frames,
    /// over as many pairs as the shorter frame has samples.
    pub fn max_distance(&self, other: &DecodedThdFrame) -> (r: u32)
        ensures
            r as int == self.spec_max_distance(other),
    {
        let n: usize = if self.samples.len() <= other.samples.len() {
            self.samples.len()
        } else {
            other.samples.len()
        };
        let mut m: u32 = 0;
        let mut i: usize = 0;
        while i < n
            invariant
                n as int == paired_len(self.samples@, other.samples@),
                i <= n,
                m as int == max_distance_upto(self.samples@, other.samples@, i as int),
            decreases n - i,
        {
            let a: i64 = self.samples[i].value as i64;
            let b: i64 = other.samples[i].value as i64;
            let d: i64 = if a >= b { a - b } else { b - a };
            let d: u32 = d as u32;
            if d > m {
                m = d;
            }
            i = i + 1;
        }
        m
    }

    /// Whether every index-aligned pair of samples is at most `tolerance` apart.
    pub fn matches_approximately(&self, other: &DecodedThdFrame, tolerance: u32) -> (r: bool)
        ensures
            r == self.spec_matches_approximately(other, tolerance),
    {
        let n: usize = if self.samples.len() <= other.samples.len() {
            self.samples.len()
        } else {
            other.samples.len()
        };
        let mut i: usize = 0;
        while i < n
            invariant
                n as int == paired_len(self.samples@, other.samples@),
                i <= n,
                forall|j: int|
                    0 <= j < i ==> #[trigger] abs_diff(self.samples@[j].value, other.samples@[j].value)
                        <= tolerance,
            decreases n - i,
        {
            let a: i64 = self.samples[i].value as i64;
            let b: i64 = other.samples[i].value as i64;
            let d: i64 = if a >= b { a - b } else { b - a };
            if d > tolerance as i64 {
                assert(abs_diff(self.samples@[i as int].value, other.samples@[i as int].value)
                    > tolerance);
                return false;
            }
            i = i + 1;
        }
        true
    }
}


/// Decoding a header reads the first eight bytes only: two buffers that
/// agree there decode to the same header.
pub proof fn lemma_header_depends_on_first_eight_bytes(a: Seq<u8>, b: Seq<u8>)
    requires
        a.len() >= 8,
        b.len() >= 8,
        a.subrange(0, 8) == b.subrange(0, 8),
    ensures
        ThdFrameHeader::spec_decode(a) == ThdFrameHeader::spec_decode(b),
{
    assert forall|i: int| 0 <= i < 8 implies a[i] == b[i] by {
        assert(a[i] == a.subrange(0, 8)[i]);
        assert(b[i] == b.subrange(0, 8)[i]);
    }
}

/// Whether an access unit carries a major sync block depends on its bytes
/// 4 to 8 alone.
pub proof fn lemma_major_sync_depends_on_signature_bytes(a: Seq<u8>, b: Seq<u8>)
    requires
        a.len() >= 8,
        b.len() >= 8,
        a.subrange(4, 8) == b.subrange(4, 8),
    ensures
        ThdFrameHeader::spec_decode(a).has_major_sync == ThdFrameHeader::spec_decode(
            b,
        ).has_major_sync,
{
    assert forall|i: int| 4 <= i < 8 implies a[i] == b[i] by {
        assert(a[i] == a.subrange(4, 8)[i - 4]);
        assert(b[i] == b.subrange(4, 8)[i - 4]);
    }
}

/// A frame that is silent below one threshold is silent below every larger
/// threshold.
pub proof fn lemma_silence_monotone(frame: &DecodedThdFrame, t: i32, t2: i32)
    requires
        t <= t2,
        frame.spec_is_silence(t),
    ensures
        frame.spec_is_silence(t2),
{
}

/// The largest distance over the first `n` pairs bounds each of them, and
/// is attained by one of them where `n` is positive.
pub proof fn lemma_max_distance_upto(a: Seq<ThdSample>, b: Seq<ThdSample>, n: int)
    requires
        0 <= n <= a.len(),
        n <= b.len(),
    ensures
        forall|i: int| 0 <= i < n ==> abs_diff(a[i].value, b[i].value) <= max_distance_upto(a, b, n),
        n > 0 ==> exists|i: int|
            0 <= i < n && abs_diff(a[i].value, b[i].value) == max_distance_upto(a, b, n),
        n == 0 ==> max_distance_upto(a, b, n) == 0,
    decreases n,
{
    if n > 0 {
        lemma_max_distance_upto(a, b, n - 1);
        let d = abs_diff(a[n - 1].value, b[n - 1].value);
        if d > max_distance_upto(a, b, n - 1) || n == 1 {
            assert(abs_diff(a[n - 1].value, b[n - 1].value) == max_distance_upto(a, b, n));
        } else {
            let i = choose|i: int|
                0 <= i < n - 1 && abs_diff(a[i].value, b[i].value) == max_distance_upto(a, b, n - 1);
            assert(abs_diff(a[i].value, b[i].value) == max_distance_upto(a, b, n));
        }
    }
}

/// Two frames match within a tolerance exactly when their largest sample
/// distance is within it.
pub proof fn lemma_matches_iff_max_distance_within(
    a: &DecodedThdFrame,
    b: &DecodedThdFrame,
    tolerance: u32,
)
    ensures
        a.spec_matches_approximately(b, tolerance) <==> a.spec_max_distance(b) <= tolerance,
{
    let n = paired_len(a.samples@, b.samples@);
    lemma_max_distance_upto(a.samples@, b.samples@, n);
    if a.spec_max_distance(b) > tolerance && n > 0 {
        let i = choose|i: int|
            0 <= i < n && abs_diff(a.samples@[i].value, b.samples@[i].value) == max_distance_upto(
                a.samples@,
                b.samples@,
                n,
            );
        assert(abs_diff(a.samples@[i].value, b.samples@[i].value) > tolerance);
    }
}

} // verus!
