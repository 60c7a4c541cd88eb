use mlp::playlist::expected_video_frames;
use mlp::timing::Framerate;
use mlp::error::{AVError, DemuxErr};
use mlp::streams::{
    find_thd_stream, find_video_stream, select_thd_stream, thd_streams, thd_streams_with_language,
    AVCodecType, StreamDescriptor, ThdStreamInfo,
};
use mlp::truehd::ThdMetadata;

fn stream(index: i32, id: i32, codec_type: AVCodecType, is_truehd: bool) -> StreamDescriptor {
    StreamDescriptor { index, id, codec_type, is_truehd, sample_rate: 48000, channels: 8 }
}

fn info(index: i32, id: i32) -> ThdStreamInfo {
    ThdStreamInfo { index, id, language: None, metadata: ThdMetadata::new(8, 48000) }
}

fn demux_err<T>(r: Result<T, AVError>) -> DemuxErr {
    match r {
        Err(AVError::DemuxErr(e)) => e,
        _ => panic!("expected a demux error"),
    }
}

fn container() -> Vec<StreamDescriptor> {
    vec![
        stream(0, 0x1011, AVCodecType::Video, false),
        stream(1, 0x1100, AVCodecType::Audio, true),
        stream(2, 0x1101, AVCodecType::Audio, false),
        stream(3, 0x1102, AVCodecType::Audio, true),
        stream(4, 0x1200, AVCodecType::Subtitle, false),
    ]
}

#[test]
fn finds_video_and_truehd_streams() {
    let s = container();
    assert_eq!(find_video_stream(&s).unwrap(), 0);
    assert_eq!(find_thd_stream(&s, None).unwrap(), 1);
    assert_eq!(find_thd_stream(&s, Some(0x1102)).unwrap(), 3);
    assert_eq!(demux_err(find_thd_stream(&s, Some(0x1101))), DemuxErr::NoTrueHdStreamFound);
    assert_eq!(demux_err(find_video_stream(&s[1..])), DemuxErr::NoVideoStreamFound);
}

#[test]
fn lists_truehd_streams() {
    let list = thd_streams(&container());
    assert_eq!(list.len(), 2);
    assert_eq!((list[0].index, list[0].id), (1, 0x1100));
    assert_eq!((list[1].index, list[1].id), (3, 0x1102));
    assert_eq!(list[1].metadata, ThdMetadata { channels: 8, sample_rate: 48000, frame_size: 40 });
    assert!(list[0].language.is_none());
}

#[test]
fn assigns_languages_by_stream_id() {
    let streams = vec![info(1, 0x1100), info(3, 0x1102)];
    let langs = vec![(0x1102, String::from("deu")), (0x1100, String::from("eng")), (0x1100, String::from("fra"))];
    let out = thd_streams_with_language(&streams, &langs);
    assert_eq!(out[0].language.as_deref(), Some("eng"));
    assert_eq!(out[1].language.as_deref(), Some("deu"));
    let out = thd_streams_with_language(&streams, &[(0x1200, String::from("jpn"))]);
    assert!(out[0].language.is_none() && out[1].language.is_none());
}

#[test]
fn selects_stream() {
    assert_eq!(demux_err(select_thd_stream(&[], Some(1))), DemuxErr::NoTrueHdStreamFound);
    assert_eq!(select_thd_stream(&[info(1, 0x1100)], Some(7)).unwrap(), Some(0x1100));
    let two = vec![info(1, 0x1100), info(3, 0x1102)];
    assert_eq!(select_thd_stream(&two, None).unwrap(), None);
    assert_eq!(select_thd_stream(&two, Some(3)).unwrap(), Some(0x1102));
    assert_eq!(demux_err(select_thd_stream(&two, Some(2))), DemuxErr::SelectedTrueHdStreamNotFound(2));
}


#[test]
fn playlist_item_video_frames() {
    let film = Framerate { numerator: 24000, denominator: 1001 };
    // 10 s at 45 kHz
    assert_eq!(expected_video_frames(0, 450_000, film), Some(240));
    assert_eq!(expected_video_frames(1000, 1000 + 45_000 * 60, film), Some(1439));
    assert_eq!(expected_video_frames(0, 450_000, Framerate { numerator: 24, denominator: 0 }), None);
    assert_eq!(expected_video_frames(450_000, 0, film), Some(-240));
}
