use vstd::prelude::*;

use crate::error::{AVError, DemuxErr};
use crate::truehd::ThdMetadata;

verus! {

#[derive(Debug, Clone, Copy, PartialEq, Eq, Structural)]
pub enum AVCodecType {
    Unknown,
    Video,
    Audio,
    Data,
    Subtitle,
    Attachment,
}

/// What a container tells of one of its streams.
#[derive(Debug, Clone, Copy, PartialEq, Eq, Structural)]
pub struct StreamDescriptor {
    /// Position of the stream in the container.
    pub index: i32,
    /// Stream identifier (the PID on a Blu-ray).
    pub id: i32,
    pub codec_type: AVCodecType,
    /// Whether the stream is coded as TrueHD.
    pub is_truehd: bool,
    pub sample_rate: u32,
    pub channels: u8,
}

/// Whether `s` is a TrueHD stream that the selection `id` admits.
pub open spec fn thd_selected(s: StreamDescriptor, id: Option<i32>) -> bool {
    s.is_truehd && match id {
        Some(i) => s.id == i,
        None => true,
    }
}

/// The first video stream of a container.
pub fn find_video_stream(streams: &[StreamDescriptor]) -> (r: Result<usize, AVError>)
    ensures
        r is Ok <==> exists|j: int|
            0 <= j < streams@.len() && (#[trigger] streams@[j]).codec_type == AVCodecType::Video,
        r is Ok ==> {
            let j = r->Ok_0 as int;
            &&& 0 <= j < streams@.len()
            &&& streams@[j].codec_type == AVCodecType::Video
            &&& forall|k: int| 0 <= k < j ==> (#[trigger] streams@[k]).codec_type != AVCodecType::Video
        },
        r is Err ==> r->Err_0.is_demux(DemuxErr::NoVideoStreamFound),
{
    let mut i: usize = 0;
    while i < streams.len()
        invariant
            i <= streams@.len(),
            forall|k: int| 0 <= k < i ==> (#[trigger] streams@[k]).codec_type != AVCodecType::Video,
        decreases streams@.len() - i,
    {
        if streams[i].codec_type == AVCodecType::Video {
            return Ok(i);
        }
        i = i + 1;
    }
    Err(AVError::DemuxErr(DemuxErr::NoVideoStreamFound))
}

/// The first TrueHD stream of a container, the first with identifier `id`
/// where one is given.
pub fn find_thd_stream(streams: &[StreamDescriptor], id: Option<i32>) -> (r: Result<
    usize,
    AVError,
>)
    ensures
        r is Ok <==> exists|j: int| 0 <= j < streams@.len() && thd_selected(#[trigger] streams@[j], id),
        r is Ok ==> {
            let j = r->Ok_0 as int;
            &&& 0 <= j < streams@.len()
            &&& thd_selected(streams@[j], id)
            &&& forall|k: int| 0 <= k < j ==> !thd_selected(#[trigger] streams@[k], id)
        },
        r is Err ==> r->Err_0.is_demux(DemuxErr::NoTrueHdStreamFound),
{
    let mut i: usize = 0;
    while i < streams.len()
        invariant
            i <= streams@.len(),
            forall|k: int| 0 <= k < i ==> !thd_selected(#[trigger] streams@[k], id),
        decreases streams@.len() - i,
    {
        let s = streams[i];
        let admitted = match id {
            Some(x) => s.id == x,
            None => true,
        };
        if s.is_truehd && admitted {
            return Ok(i);
        }
        i = i + 1;
    }
    Err(AVError::DemuxErr(DemuxErr::NoTrueHdStreamFound))
}

/// A TrueHD stream offered for selection.
#[derive(Debug, Clone)]
pub struct ThdStreamInfo {
    pub index: i32,
    pub id: i32,
    pub language: Option<String>,
    pub metadata: ThdMetadata,
}

/// The TrueHD streams among the streams of a container, in their order.
pub fn thd_streams(streams: &[StreamDescriptor]) -> (r: Vec<ThdStreamInfo>)
    ensures
        r@.len() == streams@.filter(|s: StreamDescriptor| s.is_truehd).len(),
        forall|j: int|
            0 <= j < r@.len() ==> {
                let s = streams@.filter(|s: StreamDescriptor| s.is_truehd)[j];
                &&& (#[trigger] r@[j]).index == s.index
                &&& r@[j].id == s.id
                &&& r@[j].language is None
                &&& r@[j].metadata == ThdMetadata {
                    channels: s.channels,
                    sample_rate: s.sample_rate,
                    frame_size: s.sample_rate / 1200,
                }
            },
{
    let ghost pred = |s: StreamDescriptor| s.is_truehd;
    let mut r: Vec<ThdStreamInfo> = Vec::new();
    let mut i: usize = 0;
    while i < streams.len()
        invariant
            i <= streams@.len(),
            pred == (|s: StreamDescriptor| s.is_truehd),
            r@.len() == streams@.subrange(0, i as int).filter(pred).len(),
            forall|j: int|
                0 <= j < r@.len() ==> {
                    let s = streams@.subrange(0, i as int).filter(pred)[j];
                    &&& (#[trigger] r@[j]).index == s.index
                    &&& r@[j].id == s.id
                    &&& r@[j].language is None
                    &&& r@[j].metadata == ThdMetadata {
                        channels: s.channels,
                        sample_rate: s.sample_rate,
                        frame_size: s.sample_rate / 1200,
                    }
                },
        decreases streams@.len() - i,
    {
        let s = streams[i];
        proof {
            let prefix = streams@.subrange(0, i as int);
            let next = streams@.subrange(0, i + 1);
            assert(next.drop_last() == prefix);
            assert(next.last() == s);
            reveal(Seq::filter);
        }
        if s.is_truehd {
            r.push(
                ThdStreamInfo {
                    index: s.index,
                    id: s.id,
                    language: None,
                    metadata: ThdMetadata::new(s.channels, s.sample_rate),
                },
            );
        }
        i = i + 1;
    }
    assert(streams@.subrange(0, streams@.len() as int) == streams@);
    r
}

/// The stream to demux among the TrueHD streams found: the only one where
/// there is one, else the one whose index the user selected. `Ok(None)` where
/// there are several and the user selected none.
pub fn select_thd_stream(streams: &[ThdStreamInfo], user_select: Option<i32>) -> (r: Result<
    Option<i32>,
    AVError,
>)
    ensures
        streams@.len() == 0 ==> r is Err && r->Err_0.is_demux(DemuxErr::NoTrueHdStreamFound),
        streams@.len() == 1 ==> r == Ok::<Option<i32>, AVError>(Some(streams@[0].id)),
        streams@.len() > 1 && user_select is None ==> r == Ok::<Option<i32>, AVError>(None),
        streams@.len() > 1 && user_select is Some ==> {
            let i = user_select->Some_0;
            &&& (forall|k: int| 0 <= k < streams@.len() ==> (#[trigger] streams@[k]).index != i)
                ==> r is Err && r->Err_0.is_demux(DemuxErr::SelectedTrueHdStreamNotFound(i))
            &&& (exists|k: int| 0 <= k < streams@.len() && (#[trigger] streams@[k]).index == i)
                ==> exists|k: int|
                0 <= k < streams@.len() && streams@[k].index == i && r == Ok::<
                    Option<i32>,
                    AVError,
                >(Some(#[trigger] streams@[k].id)) && forall|m: int|
                    0 <= m < k ==> (#[trigger] streams@[m]).index != i
        },
{
    if streams.len() == 0 {
        Err(AVError::DemuxErr(DemuxErr::NoTrueHdStreamFound))
    } else if streams.len() == 1 {
        Ok(Some(streams[0].id))
    } else {
        match user_select {
            Some(i) => {
                let mut k: usize = 0;
                while k < streams.len()
                    invariant
                        k <= streams@.len(),
                        streams@.len() > 1,
                        user_select == Some(i),
                        forall|m: int| 0 <= m < k ==> (#[trigger] streams@[m]).index != i,
                    decreases streams@.len() - k,
                {
                    if streams[k].index == i {
                        let r = Ok(Some(streams[k].id));
                        assert(streams@[k as int].index == i && r == Ok::<Option<i32>, AVError>(
                            Some(streams@[k as int].id),
                        ));
                        return r;
                    }
                    k = k + 1;
                }
                Err(AVError::DemuxErr(DemuxErr::SelectedTrueHdStreamNotFound(i)))
            },
            None => Ok(None),
        }
    }
}


/// The language that the first entry for identifier `id` gives, if any.
pub open spec fn language_for(languages: Seq<(i32, String)>, id: i32) -> Option<String>
    decreases languages.len(),
{
    if languages.len() == 0 {
        None
    } else if languages[0].0 == id {
        Some(languages[0].1)
    } else {
        language_for(languages.drop_first(), id)
    }
}

/// The streams, each with the language that `languages` (pairs of stream
/// identifier and language) gives for its identifier; a stream that
/// `languages` does not name keeps the language it had.
pub fn thd_streams_with_language(streams: &[ThdStreamInfo], languages: &[(i32, String)]) -> (r:
    Vec<ThdStreamInfo>)
    ensures
        r@.len() == streams@.len(),
        forall|j: int|
            0 <= j < r@.len() ==> {
                &&& (#[trigger] r@[j]).index == streams@[j].index
                &&& r@[j].id == streams@[j].id
                &&& r@[j].metadata == streams@[j].metadata
                &&& r@[j].language == match language_for(languages@, streams@[j].id) {
                    Some(l) => Some(l),
                    None => streams@[j].language,
                }
            },
{
    let mut r: Vec<ThdStreamInfo> = Vec::with_capacity(streams.len());
    let mut j: usize = 0;
    while j < streams.len()
        invariant
            j <= streams@.len(),
            r@.len() == j,
            forall|m: int|
                0 <= m < j ==> {
                    &&& (#[trigger] r@[m]).index == streams@[m].index
                    &&& r@[m].id == streams@[m].id
                    &&& r@[m].metadata == streams@[m].metadata
                    &&& r@[m].language == match language_for(languages@, streams@[m].id) {
                        Some(l) => Some(l),
                        None => streams@[m].language,
                    }
                },
        decreases streams@.len() - j,
    {
        let s = &streams[j];
        let mut found: Option<String> = None;
        let mut k: usize = 0;
        assert(languages@.subrange(0, languages@.len() as int) == languages@);
        while k < languages.len() && found.is_none()
            invariant
                k <= languages@.len(),
                found is None ==> language_for(languages@, s.id) == language_for(
                    languages@.subrange(k as int, languages@.len() as int),
                    s.id,
                ),
                found is Some ==> found == language_for(languages@, s.id),
            decreases languages@.len() - k,
        {
            let ghost rest = languages@.subrange(k as int, languages@.len() as int);
            assert(rest.drop_first() == languages@.subrange(k + 1, languages@.len() as int));
            assert(rest[0] == languages@[k as int]);
            if languages[k].0 == s.id {
                found = Some(languages[k].1.clone());
            }
            k = k + 1;
        }
        assert(found is None ==> languages@.subrange(k as int, languages@.len() as int).len()
            == 0);
        let language = match found {
            Some(l) => Some(l),
            None => match &s.language {
                Some(l) => Some(l.clone()),
                None => None,
            },
        };
        r.push(ThdStreamInfo { index: s.index, id: s.id, language, metadata: s.metadata });
        j = j + 1;
    }
    r
}

} // verus!
