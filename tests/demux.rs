use mlp::boundary::{BoundaryDecision, Similarity};
use mlp::demux::{BoundaryStep, DemuxOptions, DemuxStats, Demuxer, SegmentDemuxStats};
use mlp::error::{AVError, DemuxErr};
use mlp::segment::{FrameCounter, SegmentReader};
use mlp::timing::{Framerate, VideoMetadata};
use mlp::truehd::{DecodedThdFrame, ThdDecodePacket, ThdFrameHeader, ThdMetadata, ThdSample};

fn frame(values: &[i32]) -> DecodedThdFrame {
    DecodedThdFrame {
        samples: values.iter().map(|&v| ThdSample::new(v, 0)).collect(),
        metadata: ThdMetadata::new(1, 48000),
    }
}

fn packet(values: &[i32]) -> ThdDecodePacket {
    ThdDecodePacket { original: frame(values), mono: frame(values) }
}

fn access_unit(words: u8, major: bool) -> Vec<u8> {
    let mut data = vec![0x00u8, words, 0x00, 0x00];
    if major {
        data.extend_from_slice(&[0xf8, 0x72, 0x6f, 0xba]);
    } else {
        data.extend_from_slice(&[0x00, 0x00, 0x00, 0x00]);
    }
    data.resize(words as usize * 2, 0x11);
    data
}

fn video() -> VideoMetadata {
    VideoMetadata { framerate: Framerate { numerator: 24000, denominator: 1001 } }
}

fn audio() -> ThdMetadata {
    ThdMetadata::new(6, 48000)
}

/// Reads a segment of `units` (in words) access units, the first of them a
/// major sync, and `video_frames` video packets.
fn read_segment(units: &[u8], video_frames: u32) -> SegmentReader {
    let mut r = SegmentReader::new();
    for _ in 0..video_frames {
        r.on_video_packet();
    }
    for (i, &w) in units.iter().enumerate() {
        r.on_audio_packet(&access_unit(w, i == 0)).unwrap();
    }
    r
}

fn demux_error(r: Result<ThdFrameHeader, AVError>) -> DemuxErr {
    match r {
        Err(AVError::DemuxErr(e)) => e,
        _ => panic!("expected a demux error"),
    }
}

#[test]
fn segment_reader_keeps_group_since_major_sync() {
    let mut r = SegmentReader::new();
    r.on_audio_packet(&access_unit(8, true)).unwrap();
    r.on_audio_packet(&access_unit(10, false)).unwrap();
    r.on_audio_packet(&access_unit(12, true)).unwrap();
    let h = r.on_audio_packet(&access_unit(14, false)).unwrap();
    assert_eq!(h, ThdFrameHeader { length: 28, has_major_sync: false });
    assert_eq!(r.num_frames, 4);
    assert_eq!(r.bytes_written, 16 + 20 + 24 + 28);
    assert_eq!(
        r.group,
        vec![
            ThdFrameHeader { length: 24, has_major_sync: true },
            ThdFrameHeader { length: 28, has_major_sync: false },
        ]
    );
    assert_eq!(r.group_payloads, vec![access_unit(12, true), access_unit(14, false)]);
}

#[test]
fn segment_reader_rejects_bad_packets() {
    let mut r = SegmentReader::new();
    assert_eq!(demux_error(r.on_audio_packet(&[0, 4, 0])), DemuxErr::TruncatedFrameHeader(3));
    let mut unit = access_unit(8, false);
    unit.push(0);
    assert_eq!(
        demux_error(r.on_audio_packet(&unit)),
        DemuxErr::FrameLengthMismatch { declared: 16, actual: 17 }
    );
    assert_eq!(r.num_frames, 0);
    assert_eq!(r.bytes_written, 0);
    assert!(r.group.is_empty());
}

#[test]
fn frame_counter_counts_major_frames() {
    let mut c = FrameCounter::new();
    c.add_packet(&access_unit(8, true)).unwrap();
    c.add_packet(&access_unit(8, false)).unwrap();
    c.add_packet(&access_unit(9, true)).unwrap();
    assert!(c.add_packet(&[1, 2]).is_err());
    assert_eq!(c, FrameCounter { num_frames: 3, num_major_frames: 2 });
}

#[test]
fn three_segments_with_empty_middle() {
    let mut d = Demuxer::new(DemuxOptions::default());
    let tail_values = [10_000, -20_000, 30_000];

    // segment 1
    assert_eq!(d.check_boundary(Some(&packet(&[1, 2])), None).unwrap(), BoundaryStep::NoBoundary);
    let r1 = read_segment(&[8, 10, 12], 5);
    d.finish_segment(r1, vec![packet(&[0]), packet(&[1]), packet(&tail_values)], audio(), video(), None)
        .unwrap();
    assert_eq!(d.output_len, 16 + 20 + 24);

    // segment 2 has no TrueHD frames
    assert_eq!(d.check_boundary(None, None).unwrap(), BoundaryStep::SkipSegment);
    assert_eq!(d.stats.segments.len(), 1);
    assert_eq!(d.output_len, 60);

    // segment 3 starts with the same audio as segment 1 ends with
    let step = d.check_boundary(Some(&packet(&[10_010, -20_020, 30_030])), None).unwrap();
    assert_eq!(
        step,
        BoundaryStep::Checked { decision: BoundaryDecision::DeleteDuplicate, truncate: 24 }
    );
    assert_eq!(d.output_len, 36);
    assert_eq!(d.stats.segments[0].thd_frames, 2);
    assert_eq!(d.stats.segments[0].thd_frames_original, 3);

    // checking the same boundary again deletes nothing more
    assert_eq!(d.check_boundary(Some(&packet(&tail_values)), None).unwrap(), BoundaryStep::NoBoundary);
    assert_eq!(d.stats.segments[0].thd_frames, 2);

    let r3 = read_segment(&[8, 8], 7);
    d.finish_segment(r3, vec![packet(&[0]), packet(&[5])], audio(), video(), Some(6)).unwrap();
    let stats = d.into_stats();
    assert_eq!(stats.segments.len(), 2);
    assert_eq!(stats.segments[1].thd_frames, 2);
    assert_eq!(stats.segments[1].video_frames, 6);
    assert_eq!(stats.total_frames(), (11, 4));
}

#[test]
fn deletion_shrinks_output_by_tail_length() {
    let mut d = Demuxer::new(DemuxOptions::default());
    let r1 = read_segment(&[8, 100], 3);
    d.finish_segment(r1, vec![packet(&[7]), packet(&[500_000])], audio(), video(), None).unwrap();
    let before = d.output_len;
    let frames_before = d.stats.segments[0].thd_frames;
    let step = d.check_boundary(Some(&packet(&[500_100])), None).unwrap();
    assert_eq!(step, BoundaryStep::Checked { decision: BoundaryDecision::DeleteDuplicate, truncate: 200 });
    assert_eq!(d.output_len, before - 200);
    assert_eq!(d.stats.segments[0].thd_frames, frames_before - 1);
}

#[test]
fn different_audio_keeps_tail() {
    let mut d = Demuxer::new(DemuxOptions::default());
    let r1 = read_segment(&[8, 10], 3);
    d.finish_segment(r1, vec![packet(&[7]), packet(&[500_000])], audio(), video(), None).unwrap();
    let step = d.check_boundary(Some(&packet(&[0])), None).unwrap();
    assert_eq!(step, BoundaryStep::Checked { decision: BoundaryDecision::Keep, truncate: 0 });
    assert_eq!(d.output_len, 36);
    assert_eq!(d.stats.segments[0].thd_frames, 2);
}

#[test]
fn correlation_verdict_replaces_distance() {
    let mut d = Demuxer::new(DemuxOptions::default());
    let r1 = read_segment(&[8], 3);
    d.finish_segment(r1, vec![packet(&[500_000])], audio(), video(), None).unwrap();
    let step = d.check_boundary(Some(&packet(&[0, 7])), Some(Similarity::Match)).unwrap();
    assert_eq!(step, BoundaryStep::Checked { decision: BoundaryDecision::DeleteDuplicate, truncate: 16 });
}

#[test]
fn silent_boundary_follows_drift() {
    // 25 video frames at 24000/1001 fps last 1.04270833 s, 1252 audio frames 1.04333 s:
    // the audio runs 30 samples ahead
    let mut d = Demuxer::new(DemuxOptions::default());
    let mut r = SegmentReader::new();
    for _ in 0..25 {
        r.on_video_packet();
    }
    for i in 0..1252 {
        r.on_audio_packet(&access_unit(8, i == 0)).unwrap();
    }
    d.finish_segment(r, vec![packet(&[3])], audio(), video(), None).unwrap();
    assert_eq!(d.stats.overrun().unwrap().samples(), 30);
    let step = d.check_boundary(Some(&packet(&[-4])), None).unwrap();
    assert_eq!(step, BoundaryStep::Checked { decision: BoundaryDecision::DeleteSilent, truncate: 16 });
}

#[test]
fn invalid_frame_rate_is_refused() {
    let mut d = Demuxer::new(DemuxOptions::default());
    let bad = VideoMetadata { framerate: Framerate { numerator: 0, denominator: 1 } };
    match d.finish_segment(SegmentReader::new(), Vec::new(), audio(), bad, None) {
        Err(AVError::DemuxErr(DemuxErr::InvalidFrameRate(f))) => assert_eq!(f, bad.framerate),
        _ => panic!("expected an invalid frame rate"),
    }
    assert!(d.stats.segments.is_empty());
}

#[test]
fn stats_overrun_uses_first_segment_parameters() {
    let seg = |v: u32, a: u32| SegmentDemuxStats {
        video_frames: v,
        video_metadata: video(),
        thd_frames: a,
        thd_frames_original: a,
        thd_metadata: audio(),
    };
    let stats = DemuxStats { segments: vec![seg(24, 1201), seg(0, 1)] };
    // audio 1202 * 40 / 48000 s, video 24 * 1001 / 24000 s
    // 1202 * 40 / 48000 s of audio against 24 * 1001 / 24000 s of video: 32/48000 s
    let o = stats.overrun().unwrap();
    assert_eq!(o.num * 48000, 32 * o.den);
    assert_eq!(o.samples(), 32);
    assert_eq!(stats.video_metadata(), Some(video()));
    assert_eq!(stats.thd_metadata(), Some(audio()));
    let empty = DemuxStats { segments: Vec::new() };
    assert_eq!(empty.overrun().unwrap().samples(), 0);
    assert_eq!(empty.video_metadata(), None);
    assert_eq!(empty.thd_metadata(), None);
}

#[test]
fn default_options() {
    let o = DemuxOptions::default();
    assert_eq!(o.thd_stream_id, None);
    assert_eq!(o.silence_threshold, 100);
    assert_eq!(o.match_tolerance, 256);
}

#[test]
fn packet_reader_hands_out_payload() {
    let unit = access_unit(8, true);
    let mut r = mlp::segment::AVPacketReader::new(&unit);
    assert_eq!(r.read(5), unit[..5].to_vec());
    assert_eq!(r.read(100), unit[5..].to_vec());
    assert!(r.read(100).is_empty());
}

#[test]
fn empty_segment_leaves_no_trace() {
    let mut d = Demuxer::new(DemuxOptions::default());
    let r1 = read_segment(&[8, 12], 3);
    d.finish_segment(r1, vec![packet(&[1]), packet(&[700])], audio(), video(), None).unwrap();
    let mut empty = SegmentReader::new();
    empty.on_video_packet();
    d.finish_segment(empty, Vec::new(), audio(), video(), Some(40)).unwrap();
    assert_eq!(d.stats.segments.len(), 1);
    assert_eq!(d.output_len, 40);
    let step = d.check_boundary(Some(&packet(&[701])), None).unwrap();
    assert_eq!(step, BoundaryStep::Checked { decision: BoundaryDecision::DeleteDuplicate, truncate: 24 });
}

fn video_at(numerator: i32, denominator: i32) -> VideoMetadata {
    VideoMetadata { framerate: Framerate { numerator, denominator } }
}

#[test]
fn drift_measures_each_segment_with_its_own_rate() {
    // one second of audio and one second of video in each segment
    let mut d = Demuxer::new(DemuxOptions::default());
    let r1 = read_segment(&[8; 1200], 24);
    d.finish_segment(r1, vec![packet(&[3])], audio(), video_at(24, 1), None).unwrap();
    assert_eq!(d.check_boundary(Some(&packet(&[-2])), None).unwrap(),
        BoundaryStep::Checked { decision: BoundaryDecision::Keep, truncate: 0 });
    let r2 = read_segment(&[8; 1200], 23);
    d.finish_segment(r2, vec![packet(&[4])], audio(), video_at(23, 1), None).unwrap();
    assert_eq!(d.stats.overrun().unwrap().samples(), 0);
    // both frames silent, no drift: nothing is deleted
    assert_eq!(d.check_boundary(Some(&packet(&[1])), None).unwrap(),
        BoundaryStep::Checked { decision: BoundaryDecision::Keep, truncate: 0 });
    assert_eq!(d.stats.segments[0].thd_frames, 1200);
    assert_eq!(d.stats.segments[1].thd_frames, 1200);
}

#[test]
fn drift_of_mixed_sample_rates() {
    let seg = |v: u32, a: u32, sr: u32, num: i32| SegmentDemuxStats {
        video_frames: v,
        video_metadata: video_at(num, 1),
        thd_frames: a,
        thd_frames_original: a,
        thd_metadata: ThdMetadata::new(6, sr),
    };
    // 1 s + 1/1200 s at 48 kHz, then 1 s at 96 kHz: 40 samples ahead
    let stats = DemuxStats { segments: vec![seg(24, 1201, 48000, 24), seg(25, 1200, 96000, 25)] };
    assert_eq!(stats.overrun().unwrap().samples(), 40);
}

#[test]
fn first_segment_without_audio_is_kept() {
    let mut d = Demuxer::new(DemuxOptions::default());
    let mut r0 = SegmentReader::new();
    for _ in 0..24 {
        r0.on_video_packet();
    }
    d.finish_segment(r0, Vec::new(), audio(), video_at(24, 1), None).unwrap();
    assert_eq!(d.stats.segments.len(), 1);
    assert_eq!(d.stats.segments[0].thd_frames, 0);
    assert_eq!(d.stats.segments[0].video_frames, 24);
    // one second of video and no audio: the audio is 48000 samples behind
    assert_eq!(d.stats.overrun().unwrap().samples(), -48000);
    assert_eq!(d.check_boundary(Some(&packet(&[1])), None).unwrap(), BoundaryStep::NoBoundary);
    let r1 = read_segment(&[8, 8], 1);
    d.finish_segment(r1, vec![packet(&[0]), packet(&[1])], audio(), video(), None).unwrap();
    assert_eq!(d.stats.segments.len(), 2);
}

#[test]
fn zero_sample_rate_is_refused() {
    let mut d = Demuxer::new(DemuxOptions::default());
    match d.finish_segment(read_segment(&[8], 1), vec![packet(&[0])], ThdMetadata::new(6, 0), video(), None) {
        Err(AVError::DemuxErr(DemuxErr::InvalidSampleRate(0))) => {}
        _ => panic!("expected an invalid sample rate"),
    }
    assert!(d.stats.segments.is_empty());
}

#[test]
fn drift_out_of_range_is_reported() {
    let mut d = Demuxer::new(DemuxOptions::default());
    for num in [24001, 24002, 24003, 24004, 24005] {
        let r = read_segment(&[8], 1);
        d.finish_segment(r, vec![packet(&[500_000])], audio(), video_at(num, 1001), None).unwrap();
    }
    assert!(d.stats.overrun().is_none());
    let before = d.output_len;
    match d.check_boundary(Some(&packet(&[500_000])), None) {
        Err(AVError::DemuxErr(DemuxErr::DriftOutOfRange)) => {}
        _ => panic!("expected the drift to be out of range"),
    }
    assert_eq!(d.output_len, before);
    assert_eq!(d.stats.segments.len(), 5);
}
