use vstd::prelude::*;

use crate::boundary::{
    adjust_gap, spec_adjust_gap, BoundaryDecision, MatchStrategy, Scoring, Similarity,
};
use crate::error::{AVError, DemuxErr};
use crate::segment::SegmentReader;
use crate::timing::{
    lemma_add_fraction_value, lemma_round_div_proportional, round_div, spec_add_fraction,
    ThdOverrun, VideoMetadata,
};
use crate::truehd::{ThdDecodePacket, ThdFrameHeader, ThdMetadata};

verus! {

/// Most segments that one run handles.
pub const MAX_SEGMENTS: usize = 0x7fff_ffff;

/// What one segment contributed to the output.
#[derive(Debug, Clone, Copy, PartialEq, Eq, Structural)]
pub struct SegmentDemuxStats {
    pub video_frames: u32,
    pub video_metadata: VideoMetadata,
    /// TrueHD frames of the segment that remain in the output.
    pub thd_frames: u32,
    /// TrueHD frames of the segment as read.
    pub thd_frames_original: u32,
    pub thd_metadata: ThdMetadata,
}

/// Sum of the TrueHD frame counts of the segments.
pub open spec fn total_thd_frames(s: Seq<SegmentDemuxStats>) -> int
    decreases s.len(),
{
    if s.len() == 0 {
        0
    } else {
        total_thd_frames(s.drop_last()) + s.last().thd_frames
    }
}

/// Sum of the video frame counts of the segments.
pub open spec fn total_video_frames(s: Seq<SegmentDemuxStats>) -> int
    decreases s.len(),
{
    if s.len() == 0 {
        0
    } else {
        total_video_frames(s.drop_last()) + s.last().video_frames
    }
}

pub proof fn lemma_totals_bounded(s: Seq<SegmentDemuxStats>)
    ensures
        0 <= total_thd_frames(s) <= s.len() * (u32::MAX as int),
        0 <= total_video_frames(s) <= s.len() * (u32::MAX as int),
    decreases s.len(),
{
    if s.len() > 0 {
        lemma_totals_bounded(s.drop_last());
    }
}

/// A segment whose durations can be measured: a positive sample rate and a
/// positive frame rate.
pub open spec fn measurable(x: SegmentDemuxStats) -> bool {
    x.video_metadata.valid() && x.thd_metadata.sample_rate > 0
}

/// Numerator of a segment's own drift, `thd_frames * frame_size /
/// sample_rate - video_frames * denominator / numerator` seconds, over
/// `seg_drift_den`.
pub open spec fn seg_drift_num(x: SegmentDemuxStats) -> int {
    let fs = x.thd_metadata.frame_size as int;
    let sr = x.thd_metadata.sample_rate as int;
    let rn = x.video_metadata.framerate.numerator as int;
    let rd = x.video_metadata.framerate.denominator as int;
    x.thd_frames * fs * rn - x.video_frames * rd * sr
}

pub open spec fn seg_drift_den(x: SegmentDemuxStats) -> int {
    x.thd_metadata.sample_rate as int * x.video_metadata.framerate.numerator as int
}

/// The drift of a run, the sum of each segment's own drift, as the fraction
/// `drift_num / drift_den` seconds.
pub open spec fn drift_num(s: Seq<SegmentDemuxStats>) -> int
    decreases s.len(),
{
    if s.len() == 0 {
        0
    } else {
        drift_num(s.drop_last()) * seg_drift_den(s.last()) + seg_drift_num(s.last()) * drift_den(
            s.drop_last(),
        )
    }
}

pub open spec fn drift_den(s: Seq<SegmentDemuxStats>) -> int
    decreases s.len(),
{
    if s.len() == 0 {
        1
    } else {
        drift_den(s.drop_last()) * seg_drift_den(s.last())
    }
}

/// The drift of a run in samples at the first segment's sample rate,
/// rounded to the nearest sample.
pub open spec fn spec_drift_samples(s: Seq<SegmentDemuxStats>) -> int {
    if s.len() == 0 {
        0
    } else {
        round_div(drift_num(s) * s[0].thd_metadata.sample_rate, drift_den(s))
    }
}

/// The fraction that a `ThdOverrun` holds after adding the segments' drifts
/// one after the other; none where a step is out of its range.
pub open spec fn drift_fold(s: Seq<SegmentDemuxStats>) -> Option<(int, int)>
    decreases s.len(),
{
    if s.len() == 0 {
        Some((0, 1))
    } else {
        match drift_fold(s.drop_last()) {
            None => None,
            Some((a, b)) => spec_add_fraction(a, b, seg_drift_num(s.last()), seg_drift_den(s.last())),
        }
    }
}

pub open spec fn all_measurable(s: Seq<SegmentDemuxStats>) -> bool {
    forall|i: int| 0 <= i < s.len() ==> measurable(#[trigger] s[i])
}

pub proof fn lemma_seg_drift_den_positive(x: SegmentDemuxStats)
    requires
        measurable(x),
    ensures
        seg_drift_den(x) > 0,
{
    let sr = x.thd_metadata.sample_rate as int;
    let rn = x.video_metadata.framerate.numerator as int;
    assert(sr * rn > 0) by (nonlinear_arith)
        requires
            sr > 0,
            rn > 0,
    ;
}

/// Where the fold succeeds it holds the run's drift exactly.
pub proof fn lemma_drift_fold_value(s: Seq<SegmentDemuxStats>)
    requires
        all_measurable(s),
        drift_fold(s) is Some,
    ensures
        drift_den(s) > 0,
        drift_fold(s)->Some_0.1 > 0,
        drift_fold(s)->Some_0.0 * drift_den(s) == drift_num(s) * drift_fold(s)->Some_0.1,
    decreases s.len(),
{
    if s.len() > 0 {
        let p = s.drop_last();
        let x = s.last();
        assert(all_measurable(p)) by {
            assert forall|i: int| 0 <= i < p.len() implies measurable(#[trigger] p[i]) by {
                assert(p[i] == s[i]);
            }
        }
        assert(measurable(s[s.len() - 1]));
        lemma_drift_fold_value(p);
        lemma_seg_drift_den_positive(x);
        let (a, b) = drift_fold(p)->Some_0;
        let dn = seg_drift_num(x);
        let dd = seg_drift_den(x);
        lemma_add_fraction_value(a, b, dn, dd);
        let (a2, b2) = drift_fold(s)->Some_0;
        let pn = drift_num(p);
        let pd = drift_den(p);
        assert(pd * dd > 0) by (nonlinear_arith)
            requires
                pd > 0,
                dd > 0,
        ;
        let t = a2 * b * dd;
        assert(a2 * (pd * dd) * b == pd * t) by (nonlinear_arith)
            requires
                t == a2 * b * dd,
        ;
        assert(t == (a * dd + dn * b) * b2);
        assert(pd * ((a * dd + dn * b) * b2) == ((a * pd) * dd + dn * b * pd) * b2) by (
        nonlinear_arith);
        assert(((a * pd) * dd + dn * b * pd) * b2 == ((pn * b) * dd + dn * b * pd) * b2);
        let u = pn * dd + dn * pd;
        assert((pn * b) * dd + dn * b * pd == u * b) by (nonlinear_arith)
            requires
                u == pn * dd + dn * pd,
        ;
        assert((u * b) * b2 == u * b2 * b) by (nonlinear_arith);
        let lhs = a2 * (pd * dd);
        let rhs = (pn * dd + dn * pd) * b2;
        assert(lhs * b == rhs * b);
        assert(lhs == rhs) by (nonlinear_arith)
            requires
                lhs * b == rhs * b,
                b > 0,
        ;
    }
}

/// Once the fold fails on a prefix it fails on the whole run.
pub proof fn lemma_drift_fold_none_extends(s: Seq<SegmentDemuxStats>, i: int)
    requires
        0 <= i <= s.len(),
        drift_fold(s.subrange(0, i)) is None,
    ensures
        drift_fold(s) is None,
    decreases s.len() - i,
{
    if i < s.len() {
        let q = s.subrange(0, i + 1);
        assert(q.drop_last() == s.subrange(0, i));
        lemma_drift_fold_none_extends(s, i + 1);
    } else {
        assert(s.subrange(0, i) == s);
    }
}

/// Taking one TrueHD frame off the last segment takes one of its audio
/// frames, `frame_size / sample_rate` seconds, off the drift.
pub proof fn lemma_deletion_subtracts_one_frame(s: Seq<SegmentDemuxStats>)
    requires
        s.len() > 0,
        s.last().thd_frames > 0,
    ensures
        ({
            let n = s.len() - 1;
            let t = s.update(
                n as int,
                SegmentDemuxStats { thd_frames: (s[n as int].thd_frames - 1) as u32, ..s[n as int] },
            );
            let fs = s.last().thd_metadata.frame_size as int;
            let sr = s.last().thd_metadata.sample_rate as int;
            &&& drift_den(t) == drift_den(s)
            &&& drift_num(t) * sr == drift_num(s) * sr - fs * drift_den(s)
        }),
{
    let n = s.len() - 1;
    let t = s.update(
        n as int,
        SegmentDemuxStats { thd_frames: (s[n as int].thd_frames - 1) as u32, ..s[n as int] },
    );
    assert(t.drop_last() == s.drop_last());
    let x = s.last();
    let fs = x.thd_metadata.frame_size as int;
    let sr = x.thd_metadata.sample_rate as int;
    let rn = x.video_metadata.framerate.numerator as int;
    let rd = x.video_metadata.framerate.denominator as int;
    let a = x.thd_frames as int;
    let v = x.video_frames as int;
    let pn = drift_num(s.drop_last());
    let pd = drift_den(s.drop_last());
    assert(seg_drift_num(t.last()) == (a - 1) * fs * rn - v * rd * sr);
    assert((pn * (sr * rn) + ((a - 1) * fs * rn - v * rd * sr) * pd) * sr == (pn * (sr * rn) + (a
        * fs * rn - v * rd * sr) * pd) * sr - fs * (pd * (sr * rn))) by (nonlinear_arith);
}

/// Finishing a segment adds that segment's own drift, measured with its own
/// stream parameters.
pub proof fn lemma_segment_adds_its_delta(s: Seq<SegmentDemuxStats>, x: SegmentDemuxStats)
    ensures
        drift_num(s.push(x)) == drift_num(s) * seg_drift_den(x) + seg_drift_num(x) * drift_den(s),
        drift_den(s.push(x)) == drift_den(s) * seg_drift_den(x),
{
    assert(s.push(x).drop_last() == s);
}

/// Statistics of a run: one entry for the first segment, and one for each
/// later segment that produced TrueHD frames.
#[derive(Debug, Clone)]
pub struct DemuxStats {
    pub segments: Vec<SegmentDemuxStats>,
}

impl DemuxStats {
    /// Stats whose drift can be computed exactly.
    pub open spec fn wf(&self) -> bool {
        &&& self.segments@.len() <= MAX_SEGMENTS
        &&& all_measurable(self.segments@)
    }

    pub fn video_metadata(&self) -> (r: Option<VideoMetadata>)
        ensures
            self.segments@.len() == 0 ==> r.is_none(),
            self.segments@.len() > 0 ==> r == Some(self.segments@[0].video_metadata),
    {
        if self.segments.len() == 0 {
            None
        } else {
            Some(self.segments[0].video_metadata)
        }
    }

    pub fn thd_metadata(&self) -> (r: Option<ThdMetadata>)
        ensures
            self.segments@.len() == 0 ==> r.is_none(),
            self.segments@.len() > 0 ==> r == Some(self.segments@[0].thd_metadata),
    {
        if self.segments.len() == 0 {
            None
        } else {
            Some(self.segments[0].thd_metadata)
        }
    }

    /// Total video frames and total TrueHD frames over all segments.
    pub fn total_frames(&self) -> (r: (u64, u64))
        requires
            self.segments@.len() <= MAX_SEGMENTS,
        ensures
            r.0 as int == total_video_frames(self.segments@),
            r.1 as int == total_thd_frames(self.segments@),
    {
        let mut v: u64 = 0;
        let mut a: u64 = 0;
        let mut i: usize = 0;
        while i < self.segments.len()
            invariant
                i <= self.segments@.len() <= MAX_SEGMENTS,
                v as int == total_video_frames(self.segments@.subrange(0, i as int)),
                a as int == total_thd_frames(self.segments@.subrange(0, i as int)),
            decreases self.segments@.len() - i,
        {
            let ghost s = self.segments@;
            proof {
                let next = s.subrange(0, i + 1);
                assert(next.drop_last() == s.subrange(0, i as int));
                lemma_totals_bounded(s.subrange(0, i as int));
                assert(i * (u32::MAX as int) <= MAX_SEGMENTS * (u32::MAX as int)) by (nonlinear_arith)
                    requires
                        i <= MAX_SEGMENTS,
                ;
            }
            v = v + self.segments[i].video_frames as u64;
            a = a + self.segments[i].thd_frames as u64;
            i = i + 1;
        }
        assert(self.segments@.subrange(0, self.segments@.len() as int) == self.segments@);
        (v, a)
    }

    /// The drift of audio against video over the whole run: the sum of each
    /// segment's own drift, counted in samples at the first segment's sample
    /// rate. None where the exact sum is out of the range a `ThdOverrun`
    /// holds.
    pub fn overrun(&self) -> (r: Option<ThdOverrun>)
        requires
            self.wf(),
        ensures
            r is Some <==> drift_fold(self.segments@) is Some,
            r matches Some(o) ==> {
                &&& o.wf()
                &&& (o.num as int, o.den as int) == drift_fold(self.segments@)->Some_0
                &&& o.spec_samples() == spec_drift_samples(self.segments@)
            },
    {
        let ghost s = self.segments@;
        let sr: u32 = if self.segments.len() == 0 {
            0
        } else {
            self.segments[0].thd_metadata.sample_rate
        };
        let mut ov = ThdOverrun::new(sr);
        let mut i: usize = 0;
        assert(s.subrange(0, 0) =~= Seq::<SegmentDemuxStats>::empty());
        while i < self.segments.len()
            invariant
                s == self.segments@,
                self.wf(),
                i <= s.len(),
                ov.wf(),
                ov.sample_rate == sr,
                drift_fold(s.subrange(0, i as int)) == Some((ov.num as int, ov.den as int)),
            decreases s.len() - i,
        {
            let x = self.segments[i];
            assert(measurable(s[i as int]));
            let fs: i128 = x.thd_metadata.frame_size as i128;
            let sr_x: i128 = x.thd_metadata.sample_rate as i128;
            let rn: i128 = x.video_metadata.framerate.numerator as i128;
            let rd: i128 = x.video_metadata.framerate.denominator as i128;
            let a: i128 = x.thd_frames as i128;
            let v: i128 = x.video_frames as i128;
            proof {
                assert(0 <= a * fs * rn <= 0xffff_ffff * 0xffff_ffff * 0x7fff_ffff) by (nonlinear_arith)
                    requires
                        0 <= a <= 0xffff_ffff,
                        0 <= fs <= 0xffff_ffff,
                        0 < rn <= 0x7fff_ffff,
                ;
                assert(0 <= v * rd * sr_x <= 0xffff_ffff * 0x7fff_ffff * 0xffff_ffff) by (nonlinear_arith)
                    requires
                        0 <= v <= 0xffff_ffff,
                        0 <= rd <= 0x7fff_ffff,
                        0 <= sr_x <= 0xffff_ffff,
                ;
                assert(0 < sr_x * rn <= 0xffff_ffff * 0x7fff_ffff) by (nonlinear_arith)
                    requires
                        0 < sr_x <= 0xffff_ffff,
                        0 < rn <= 0x7fff_ffff,
                ;
                assert(a * fs <= 0xffff_ffff * 0xffff_ffff && v * rd <= 0xffff_ffff * 0x7fff_ffff)
                    by (nonlinear_arith)
                    requires
                        0 <= a <= 0xffff_ffff,
                        0 <= fs <= 0xffff_ffff,
                        0 <= v <= 0xffff_ffff,
                        0 <= rd <= 0x7fff_ffff,
                ;
                assert(0 <= a * fs && 0 <= v * rd) by (nonlinear_arith)
                    requires
                        0 <= a,
                        0 <= fs,
                        0 <= v,
                        0 <= rd,
                ;
            }
            let n_x: i128 = a * fs * rn - v * rd * sr_x;
            let d_x: i128 = sr_x * rn;
            proof {
                let q = s.subrange(0, i + 1);
                assert(q.drop_last() == s.subrange(0, i as int));
                assert(q.last() == x);
            }
            if !ov.add_fraction(n_x, d_x) {
                proof {
                    lemma_drift_fold_none_extends(s, i + 1);
                }
                return None;
            }
            i = i + 1;
        }
        proof {
            assert(s.subrange(0, s.len() as int) == s);
            lemma_drift_fold_value(s);
            if s.len() > 0 {
                let srv = sr as int;
                let num = ov.num as int;
                let den = ov.den as int;
                let dn = drift_num(s);
                let dd = drift_den(s);
                assert((num * srv) * dd == (dn * srv) * den) by (nonlinear_arith)
                    requires
                        num * dd == dn * den,
                ;
                lemma_round_div_proportional(num * srv, den, dn * srv, dd);
                assert(ov.spec_samples() == spec_drift_samples(s));
            } else {
                assert(ov.num == 0 && ov.den == 1);
                assert(ov.num * ov.sample_rate == 0);
                assert(ov.spec_samples() == 0);
            }
        }
        Some(ov)
    }
}

/// Silence threshold that runs use unless told otherwise.
pub const DEFAULT_SILENCE_THRESHOLD: i32 = 100;

/// Match tolerance that runs use unless told otherwise.
pub const DEFAULT_MATCH_TOLERANCE: u32 = 256;

#[derive(Debug, Clone, Copy, PartialEq, Eq, Structural)]
pub struct DemuxOptions {
    /// The TrueHD stream to demux; the first one where none is given.
    pub thd_stream_id: Option<i32>,
    /// Frames whose samples all stay below this magnitude count as silent.
    pub silence_threshold: i32,
    /// Largest sample distance at which two frames count as the same audio.
    pub match_tolerance: u32,
}

impl DemuxOptions {
    pub fn default() -> (r: DemuxOptions)
        ensures
            r == (DemuxOptions {
                thd_stream_id: None,
                silence_threshold: DEFAULT_SILENCE_THRESHOLD,
                match_tolerance: DEFAULT_MATCH_TOLERANCE,
            }),
    {
        DemuxOptions {
            thd_stream_id: None,
            silence_threshold: DEFAULT_SILENCE_THRESHOLD,
            match_tolerance: DEFAULT_MATCH_TOLERANCE,
        }
    }

    /// How the frames at a boundary are compared: by the graded correlation
    /// score where the caller gives one, else by sample distance.
    pub open spec fn spec_strategy(&self, correlation: Option<Similarity>) -> MatchStrategy {
        MatchStrategy {
            silence_threshold: self.silence_threshold,
            scoring: match correlation {
                Some(s) => Scoring::Correlation(s),
                None => Scoring::MaxDistance { tolerance: self.match_tolerance },
            },
        }
    }
}

/// Outcome of the write pass over one segment.
#[derive(Debug, Clone)]
pub struct ThdSegment {
    /// The decoded frames of the segment's last group, with their headers.
    pub last_group_of_frames: Vec<(ThdDecodePacket, ThdFrameHeader)>,
    pub num_frames: u32,
    pub num_video_frames: u32,
    pub thd_metadata: ThdMetadata,
    pub video_metadata: VideoMetadata,
}

/// What happened at the boundary in front of a segment.
#[derive(Debug, Clone, Copy, PartialEq, Eq, Structural)]
pub enum BoundaryStep {
    /// No earlier frame to compare with: the segment is read as it is.
    NoBoundary,
    /// The segment has no TrueHD frames: it is left out altogether.
    SkipSegment,
    /// The frames were compared; where the earlier one was deleted,
    /// `truncate` is its length, by which the output is cut back.
    Checked { decision: BoundaryDecision, truncate: usize },
}

/// The video frame count of a segment: the expected count where one is
/// given, the counted one otherwise.
pub open spec fn corrected_video_frames(counted: u32, expected: Option<i32>) -> u32 {
    match expected {
        Some(n) => n as u32,
        None => counted,
    }
}

/// Each segment has lost at most one TrueHD frame, the one at the boundary
/// behind it.
pub open spec fn at_most_one_deleted(s: Seq<SegmentDemuxStats>) -> bool {
    forall|k: int|
        0 <= k < s.len() ==> (#[trigger] s[k]).thd_frames <= s[k].thd_frames_original
            && s[k].thd_frames_original <= s[k].thd_frames + 1
}

/// A run over an ordered list of segments, fed one segment at a time.
pub struct Demuxer {
    pub options: DemuxOptions,
    pub stats: DemuxStats,
    /// The last segment kept in the statistics, until the boundary behind it
    /// is checked.
    pub previous: Option<ThdSegment>,
    /// Bytes in the output.
    pub output_len: u64,
}

impl Demuxer {
    pub open spec fn wf(&self) -> bool {
        &&& self.stats.wf()
        &&& at_most_one_deleted(self.stats.segments@)
        &&& self.previous matches Some(p) ==> {
            &&& self.stats.segments@.len() > 0
            &&& self.stats.segments@.last().thd_frames == p.num_frames
            &&& self.stats.segments@.last().thd_frames_original == p.num_frames
            &&& p.last_group_of_frames@.len() <= p.num_frames
            &&& forall|i: int|
                0 <= i < p.last_group_of_frames@.len() ==> (
                #[trigger] p.last_group_of_frames@[i]).1.length <= self.output_len
        }
    }

    pub fn new(options: DemuxOptions) -> (r: Demuxer)
        ensures
            r.wf(),
            r.options == options,
            r.stats.segments@.len() == 0,
            r.previous.is_none(),
            r.output_len == 0,
    {
        Demuxer { options, stats: DemuxStats { segments: Vec::new() }, previous: None, output_len: 0 }
    }

    /// The frame before the next boundary, where there is one.
    pub open spec fn spec_tail(&self) -> Option<(ThdDecodePacket, ThdFrameHeader)> {
        match self.previous {
            Some(p) => if p.last_group_of_frames@.len() > 0 {
                Some(p.last_group_of_frames@.last())
            } else {
                None
            },
            None => None,
        }
    }

    pub fn previous_tail(&self) -> (r: Option<&ThdDecodePacket>)
        ensures
            r is None <==> self.spec_tail() is None,
            r is Some ==> *r->Some_0 == self.spec_tail()->Some_0.0,
    {
        match &self.previous {
            Some(p) => {
                let n = p.last_group_of_frames.len();
                if n > 0 {
                    Some(&p.last_group_of_frames[n - 1].0)
                } else {
                    None
                }
            },
            None => None,
        }
    }

    /// Checks the boundary in front of the next segment, whose first decoded
    /// frame is `head` (none where the segment has no TrueHD frames).
    /// `correlation` is the graded correlation score of the two frames where
    /// the caller compares them that way; without it they are compared by
    /// sample distance.
    ///
    /// Where the earlier frame is deleted, the output is cut back by its
    /// length and the earlier segment counts one TrueHD frame less; at most one
    /// frame goes, and the boundary is not checked again.
    pub fn check_boundary(&mut self, head: Option<&ThdDecodePacket>, correlation: Option<
        Similarity,
    >) -> (r: Result<BoundaryStep, AVError>)
        requires
            old(self).wf(),
        ensures
            final(self).wf(),
            final(self).options == old(self).options,
            old(self).previous is None ==> r == Ok::<BoundaryStep, AVError>(BoundaryStep::NoBoundary),
            old(self).previous is Some && head is None ==> r == Ok::<BoundaryStep, AVError>(
                BoundaryStep::SkipSegment,
            ),
            old(self).previous is Some && head is Some && old(self).spec_tail() is None ==> r
                == Ok::<BoundaryStep, AVError>(BoundaryStep::NoBoundary),
            r == Ok::<BoundaryStep, AVError>(BoundaryStep::NoBoundary) || r == Ok::<
                BoundaryStep,
                AVError,
            >(BoundaryStep::SkipSegment) ==> *final(self) == *old(self),
            old(self).spec_tail() is Some && head is Some && drift_fold(old(self).stats.segments@)
                is None ==> r is Err && r->Err_0.is_demux(DemuxErr::DriftOutOfRange)
                && *final(self) == *old(self),
            old(self).spec_tail() is Some && head is Some && drift_fold(old(self).stats.segments@)
                is Some ==> {
                let tail = old(self).spec_tail()->Some_0;
                let decision = spec_adjust_gap(
                    &tail.0,
                    head->Some_0,
                    spec_drift_samples(old(self).stats.segments@),
                    old(self).options.spec_strategy(correlation),
                );
                let n = old(self).stats.segments@.len();
                &&& final(self).previous is None
                &&& decision.deletes() ==> {
                    &&& r == Ok::<BoundaryStep, AVError>(
                        BoundaryStep::Checked { decision, truncate: tail.1.length },
                    )
                    &&& final(self).output_len == old(self).output_len - tail.1.length
                    &&& final(self).stats.segments@ == old(self).stats.segments@.update(
                        n - 1,
                        SegmentDemuxStats {
                            thd_frames: (old(self).stats.segments@[n - 1].thd_frames - 1) as u32,
                            ..old(self).stats.segments@[n - 1]
                        },
                    )
                }
                &&& !decision.deletes() ==> {
                    &&& r == Ok::<BoundaryStep, AVError>(BoundaryStep::Checked { decision, truncate: 0 })
                    &&& final(self).output_len == old(self).output_len
                    &&& final(self).stats.segments@ == old(self).stats.segments@
                }
            },
    {
        if self.previous.is_none() {
            return Ok(BoundaryStep::NoBoundary);
        }
        let head = match head {
            Some(h) => h,
            None => {
                return Ok(BoundaryStep::SkipSegment);
            },
        };
        let tail_header: ThdFrameHeader;
        let decision: BoundaryDecision;
        {
            let prev = self.previous.as_ref().unwrap();
            let n = prev.last_group_of_frames.len();
            if n == 0 {
                return Ok(BoundaryStep::NoBoundary);
            }
            let tail = &prev.last_group_of_frames[n - 1];
            let overrun = match self.stats.overrun() {
                Some(o) => o,
                None => {
                    return Err(AVError::DemuxErr(DemuxErr::DriftOutOfRange));
                },
            };
            let scoring = match correlation {
                Some(s) => Scoring::Correlation(s),
                None => Scoring::MaxDistance { tolerance: self.options.match_tolerance },
            };
            let strategy = MatchStrategy { silence_threshold: self.options.silence_threshold, scoring };
            decision = adjust_gap(&tail.0, head, &overrun, &strategy);
            tail_header = tail.1;
        }
        self.previous = None;
        if decision.frames_to_delete() > 0 {
            self.output_len = self.output_len - tail_header.length as u64;
            let last = self.stats.segments.len() - 1;
            let mut entry = self.stats.segments[last];
            entry.thd_frames = entry.thd_frames - 1;
            self.stats.segments.set(last, entry);
            Ok(BoundaryStep::Checked { decision, truncate: tail_header.length })
        } else {
            Ok(BoundaryStep::Checked { decision, truncate: 0 })
        }
    }

    /// Ends the write pass over a segment: records its statistics, and keeps
    /// its last group of frames (`decoded` being that group's packets
    /// decoded, in order) for the boundary behind it. A segment after the
    /// first that has no TrueHD frames leaves no trace; the first segment is
    /// always kept.
    pub fn finish_segment(
        &mut self,
        reader: SegmentReader,
        decoded: Vec<ThdDecodePacket>,
        thd_metadata: ThdMetadata,
        video_metadata: VideoMetadata,
        expected_video_frames: Option<i32>,
    ) -> (r: Result<(), AVError>)
        requires
            old(self).wf(),
            reader.wf(),
            old(self).stats.segments@.len() < MAX_SEGMENTS,
            old(self).output_len + reader.bytes_written <= u64::MAX,
        ensures
            final(self).wf(),
            final(self).options == old(self).options,
            !video_metadata.valid() ==> r is Err && r->Err_0.is_demux(
                DemuxErr::InvalidFrameRate(video_metadata.framerate),
            ) && *final(self) == *old(self),
            video_metadata.valid() && thd_metadata.sample_rate == 0 ==> r is Err
                && r->Err_0.is_demux(DemuxErr::InvalidSampleRate(0)) && *final(self) == *old(self),
            video_metadata.valid() && thd_metadata.sample_rate > 0 ==> r is Ok,
            r is Ok && reader.num_frames == 0 && old(self).stats.segments@.len() > 0 ==> *final(self)
                == *old(self),
            r is Ok && (reader.num_frames > 0 || old(self).stats.segments@.len() == 0) ==> {
                &&& final(self).stats.segments@ == old(self).stats.segments@.push(
                    SegmentDemuxStats {
                        video_frames: corrected_video_frames(
                            reader.num_video_frames,
                            expected_video_frames,
                        ),
                        video_metadata,
                        thd_frames: reader.num_frames,
                        thd_frames_original: reader.num_frames,
                        thd_metadata,
                    },
                )
                &&& final(self).output_len == old(self).output_len + reader.bytes_written
                &&& final(self).previous is Some
                &&& {
                    let p = final(self).previous->Some_0;
                    &&& p.num_frames == reader.num_frames
                    &&& p.num_video_frames == corrected_video_frames(
                        reader.num_video_frames,
                        expected_video_frames,
                    )
                    &&& p.thd_metadata == thd_metadata
                    &&& p.video_metadata == video_metadata
                    &&& p.last_group_of_frames@.len() == if decoded@.len()
                        <= reader.group@.len() {
                        decoded@.len()
                    } else {
                        reader.group@.len()
                    }
                    &&& forall|i: int|
                        0 <= i < p.last_group_of_frames@.len() ==> #[trigger] p.last_group_of_frames@[i]
                            == (decoded@[i], reader.group@[i])
                }
            },
    {
        if !video_metadata.is_valid() {
            return Err(AVError::DemuxErr(DemuxErr::InvalidFrameRate(video_metadata.framerate)));
        }
        if thd_metadata.sample_rate == 0 {
            return Err(AVError::DemuxErr(DemuxErr::InvalidSampleRate(0)));
        }
        if reader.num_frames == 0 && self.stats.segments.len() > 0 {
            return Ok(());
        }
        let video_frames: u32 = match expected_video_frames {
            Some(n) => n as u32,
            None => reader.num_video_frames,
        };
        let n: usize = if decoded.len() <= reader.group.len() {
            decoded.len()
        } else {
            reader.group.len()
        };
        let mut rest = decoded;
        let ghost all = rest@;
        let mut group: Vec<(ThdDecodePacket, ThdFrameHeader)> = Vec::with_capacity(n);
        let mut i: usize = 0;
        while i < n
            invariant
                i <= n,
                n <= all.len(),
                n <= reader.group@.len(),
                rest@ == all.subrange(i as int, all.len() as int),
                group@.len() == i,
                forall|j: int| 0 <= j < i ==> #[trigger] group@[j] == (all[j], reader.group@[j]),
            decreases n - i,
        {
            let frame = rest.remove(0);
            group.push((frame, reader.group[i]));
            i = i + 1;
        }
        let entry = SegmentDemuxStats {
            video_frames,
            video_metadata,
            thd_frames: reader.num_frames,
            thd_frames_original: reader.num_frames,
            thd_metadata,
        };
        self.stats.segments.push(entry);
        self.output_len = self.output_len + reader.bytes_written;
        self.previous = Some(
            ThdSegment {
                last_group_of_frames: group,
                num_frames: reader.num_frames,
                num_video_frames: video_frames,
                thd_metadata,
                video_metadata,
            },
        );
        Ok(())
    }

    /// The statistics of the run so far.
    pub fn into_stats(self) -> (r: DemuxStats)
        requires
            self.wf(),
        ensures
            r.segments@ == self.stats.segments@,
            at_most_one_deleted(r.segments@),
    {
        self.stats
    }
}

} // verus!
