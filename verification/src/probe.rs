//! What the editor reads from ffprobe's report on a media file: the
//! first video stream, the first audio stream and the container facts.

use crate::media::AudioInfo;
use crate::text::{parse_u64, parse_u64_spec};
use vstd::prelude::*;

verus! {

/// One stream of ffprobe's report, as far as the editor reads it.
#[derive(Clone, Debug)]
pub struct ProbeStream {
    /// `video`, `audio`, or another stream type.
    pub codec_type: String,
    pub codec_name: Option<String>,
    pub width: Option<u32>,
    pub height: Option<u32>,
    pub pix_fmt: Option<String>,
    pub sample_rate: Option<u32>,
    pub channels: Option<u32>,
    /// Average frame rate, as a fraction such as `30000/1001`.
    pub avg_frame_rate: Option<String>,
    /// Base frame rate, as a fraction.
    pub r_frame_rate: Option<String>,
}

/// The container part of ffprobe's report.
#[derive(Clone, Debug)]
pub struct ProbeFormat {
    /// Duration in seconds, as text.
    pub duration: Option<String>,
    /// Bitrate in bits per second, as text.
    pub bit_rate: Option<String>,
    pub format_name: Option<String>,
}

/// ffprobe's report on one file.
#[derive(Clone, Debug)]
pub struct ProbeOutput {
    pub format: Option<ProbeFormat>,
    pub streams: Option<Vec<ProbeStream>>,
}

/// The facts of the first video stream; its frame rates are still text.
#[derive(Clone, Debug)]
pub struct VideoStream {
    pub width: u32,
    pub height: u32,
    pub codec: String,
    pub pixel_format: String,
    pub avg_frame_rate: Option<String>,
    pub r_frame_rate: Option<String>,
}

/// What a probe report says of the media, before its numbers written as
/// decimal fractions are read.
#[derive(Clone, Debug)]
pub struct ProbeSummary {
    pub video: Option<VideoStream>,
    pub audio: Option<AudioInfo>,
    /// The container's duration in seconds, as text.
    pub duration: Option<String>,
    /// The container's bitrate, when it reads as a number.
    pub bitrate: Option<u64>,
    /// The container's format name, empty when not reported.
    pub format: String,
}

/// The text of `t`, or the empty text.
pub open spec fn text_or_empty(t: Option<String>) -> Seq<char> {
    match t {
        Some(s) => s@,
        None => Seq::empty(),
    }
}

/// The number in `n`, or 0.
pub open spec fn number_or_zero(n: Option<u32>) -> u32 {
    match n {
        Some(v) => v,
        None => 0,
    }
}

/// The streams of a report (none when it lists none).
pub open spec fn streams_of(p: ProbeOutput) -> Seq<ProbeStream> {
    match p.streams {
        Some(v) => v@,
        None => Seq::empty(),
    }
}

/// `i` is the first stream of type `ty`.
pub open spec fn is_first_of_type(streams: Seq<ProbeStream>, ty: Seq<char>, i: int) -> bool {
    &&& 0 <= i < streams.len()
    &&& streams[i].codec_type@ == ty
    &&& forall|j: int| 0 <= j < i ==> (#[trigger] streams[j]).codec_type@ != ty
}

/// Some stream has type `ty`.
pub open spec fn has_type(streams: Seq<ProbeStream>, ty: Seq<char>) -> bool {
    exists|i: int| 0 <= i < streams.len() && (#[trigger] streams[i]).codec_type@ == ty
}

/// The first stream of type `ty` (meaningful when there is one).
pub open spec fn first_of_type(streams: Seq<ProbeStream>, ty: Seq<char>) -> ProbeStream {
    streams[choose|i: int| is_first_of_type(streams, ty, i)]
}

/// `v` holds what the editor reads of video stream `s`.
pub open spec fn video_of(s: ProbeStream, v: VideoStream) -> bool {
    &&& v.width == number_or_zero(s.width)
    &&& v.height == number_or_zero(s.height)
    &&& v.codec@ == text_or_empty(s.codec_name)
    &&& v.pixel_format@ == text_or_empty(s.pix_fmt)
    &&& v.avg_frame_rate == s.avg_frame_rate
    &&& v.r_frame_rate == s.r_frame_rate
}

/// `a` holds what the editor reads of audio stream `s`.
pub open spec fn audio_of(s: ProbeStream, a: AudioInfo) -> bool {
    &&& a.sample_rate == number_or_zero(s.sample_rate)
    &&& a.channels == number_or_zero(s.channels)
    &&& a.codec@ == text_or_empty(s.codec_name)
}

/// The container duration text of a report.
pub open spec fn duration_text(p: ProbeOutput) -> Option<String> {
    match p.format {
        Some(f) => f.duration,
        None => None,
    }
}

/// The container bitrate of a report, when its text reads as a number.
pub open spec fn bitrate_of(p: ProbeOutput) -> Option<u64> {
    match p.format {
        Some(f) => match f.bit_rate {
            Some(t) => parse_u64_spec(t@),
            None => None,
        },
        None => None,
    }
}

/// The container format name of a report, empty when not reported.
pub open spec fn format_name_of(p: ProbeOutput) -> Seq<char> {
    match p.format {
        Some(f) => text_or_empty(f.format_name),
        None => Seq::empty(),
    }
}

proof fn lemma_first_unique(streams: Seq<ProbeStream>, ty: Seq<char>, i: int, k: int)
    requires
        is_first_of_type(streams, ty, i),
        is_first_of_type(streams, ty, k),
    ensures
        i == k,
{
    if i < k {
        assert(streams[i].codec_type@ != ty);
    }
    if k < i {
        assert(streams[k].codec_type@ != ty);
    }
}

fn clone_text(t: &Option<String>) -> (r: Option<String>)
    ensures
        r == *t,
{
    match t {
        Some(s) => Some(s.clone()),
        None => None,
    }
}

fn text_or_default(t: &Option<String>) -> (r: String)
    ensures
        r@ == text_or_empty(*t),
{
    match t {
        Some(s) => s.clone(),
        None => String::new(),
    }
}

fn or_zero(n: Option<u32>) -> (r: u32)
    ensures
        r == number_or_zero(n),
{
    match n {
        Some(v) => v,
        None => 0,
    }
}

/// Read a probe report: the first video stream and the first audio
/// stream, the container's duration text, its bitrate when the text
/// reads as a number, and its format name (empty when missing).
pub fn summarize_probe(parsed: &ProbeOutput) -> (r: ProbeSummary)
    ensures
        has_type(streams_of(*parsed), "video"@) ==> (r.video matches Some(v) && video_of(
            first_of_type(streams_of(*parsed), "video"@),
            v,
        )),
        !has_type(streams_of(*parsed), "video"@) ==> r.video is None,
        has_type(streams_of(*parsed), "audio"@) ==> (r.audio matches Some(a) && audio_of(
            first_of_type(streams_of(*parsed), "audio"@),
            a,
        )),
        !has_type(streams_of(*parsed), "audio"@) ==> r.audio is None,
        r.duration == duration_text(*parsed),
        r.bitrate == bitrate_of(*parsed),
        r.format@ == format_name_of(*parsed),
{
    let video_ty = "video".to_owned();
    let audio_ty = "audio".to_owned();
    let mut video: Option<VideoStream> = None;
    let mut audio: Option<AudioInfo> = None;
    let ghost mut vk: int = 0;
    let ghost mut ak: int = 0;
    let ghost streams = streams_of(*parsed);
    proof {
        reveal_strlit("video");
        reveal_strlit("audio");
        assert("video"@[0] != "audio"@[0]);
    }
    match &parsed.streams {
        Some(list) => {
            let mut i: usize = 0;
            while i < list.len()
                invariant
                    streams == list@,
                    video_ty@ == "video"@,
                    audio_ty@ == "audio"@,
                    "video"@ != "audio"@,
                    i <= list@.len(),
                    video is None <==> forall|j: int|
                        0 <= j < i ==> (#[trigger] list@[j]).codec_type@ != "video"@,
                    video matches Some(v) ==> vk < i && is_first_of_type(list@, "video"@, vk)
                        && video_of(list@[vk], v),
                    audio is None <==> forall|j: int|
                        0 <= j < i ==> (#[trigger] list@[j]).codec_type@ != "audio"@,
                    audio matches Some(a) ==> ak < i && is_first_of_type(list@, "audio"@, ak)
                        && audio_of(list@[ak], a),
                decreases list@.len() - i,
            {
                let s = &list[i];
                if video.is_none() && s.codec_type == video_ty {
                    video = Some(
                        VideoStream {
                            width: or_zero(s.width),
                            height: or_zero(s.height),
                            codec: text_or_default(&s.codec_name),
                            pixel_format: text_or_default(&s.pix_fmt),
                            avg_frame_rate: clone_text(&s.avg_frame_rate),
                            r_frame_rate: clone_text(&s.r_frame_rate),
                        },
                    );
                    proof {
                        vk = i as int;
                    }
                } else if audio.is_none() && s.codec_type == audio_ty {
                    audio = Some(
                        AudioInfo {
                            sample_rate: or_zero(s.sample_rate),
                            channels: or_zero(s.channels),
                            codec: text_or_default(&s.codec_name),
                        },
                    );
                    proof {
                        ak = i as int;
                    }
                }
                i = i + 1;
            }
        },
        None => {},
    }
    proof {
        if has_type(streams, "video"@) {
            let w = choose|i: int| 0 <= i < streams.len() && (#[trigger] streams[i]).codec_type@
                == "video"@;
            assert(streams[w].codec_type@ == "video"@);
            lemma_first_unique(
                streams,
                "video"@,
                vk,
                choose|i: int| is_first_of_type(streams, "video"@, i),
            );
        } else {
            assert(video is None);
        }
        if has_type(streams, "audio"@) {
            let w = choose|i: int| 0 <= i < streams.len() && (#[trigger] streams[i]).codec_type@
                == "audio"@;
            assert(streams[w].codec_type@ == "audio"@);
            lemma_first_unique(
                streams,
                "audio"@,
                ak,
                choose|i: int| is_first_of_type(streams, "audio"@, i),
            );
        } else {
            assert(audio is None);
        }
    }
    let (duration, bitrate, format) = match &parsed.format {
        Some(f) => {
            let bitrate = match &f.bit_rate {
                Some(t) => parse_u64(t.as_str()),
                None => None,
            };
            (clone_text(&f.duration), bitrate, text_or_default(&f.format_name))
        },
        None => (None, None, String::new()),
    };
    ProbeSummary { video, audio, duration, bitrate, format }
}

} // verus!
