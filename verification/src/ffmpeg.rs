//! Locating ffmpeg and ffprobe, and the command lines the editor runs
//! them with.

use crate::export::{
    decimal, decimal_string, encoder_args, encoder_args_spec, pix_fmt_name, EncoderSettings,
    ExportVideoCodec,
};
use crate::text::append_str;
use crate::timeline::TrackKind;
use vstd::prelude::*;

verus! {

/// Where the ffmpeg and ffprobe programs were found.
#[derive(Clone, Debug)]
pub struct FfmpegPaths {
    pub ffmpeg: String,
    pub ffprobe: String,
}

/// What looking for or running ffmpeg and ffprobe can end in.
#[derive(Clone, Debug)]
pub enum FfmpegError {
    /// No ffmpeg program on the search path.
    FfmpegNotFound,
    /// No ffprobe program on the search path.
    FfprobeNotFound,
    /// The program ran and exited unsuccessfully.
    CommandFailed { code: Option<i32>, stderr: String },
    /// The prober's report could not be read.
    ParseFailed(String),
    /// The media cannot be handled.
    Unsupported(String),
}

/// The paths of both programs when both were found; otherwise the error
/// naming the first one missing (ffmpeg before ffprobe).
pub fn locate_paths(ffmpeg: Option<String>, ffprobe: Option<String>) -> (r: Result<
    FfmpegPaths,
    FfmpegError,
>)
    ensures
        ffmpeg is None ==> r matches Err(FfmpegError::FfmpegNotFound),
        ffmpeg is Some && ffprobe is None ==> r matches Err(FfmpegError::FfprobeNotFound),
        ffmpeg is Some && ffprobe is Some ==> (r matches Ok(p) && p.ffmpeg == ffmpeg->0
            && p.ffprobe == ffprobe->0),
{
    let ffmpeg = match ffmpeg {
        Some(p) => p,
        None => return Err(FfmpegError::FfmpegNotFound),
    };
    let ffprobe = match ffprobe {
        Some(p) => p,
        None => return Err(FfmpegError::FfprobeNotFound),
    };
    Ok(FfmpegPaths { ffmpeg, ffprobe })
}

/// The texts of a list of arguments.
pub open spec fn texts(args: Seq<String>) -> Seq<Seq<char>> {
    args.map_values(|a: String| a@)
}

fn push_arg(args: &mut Vec<String>, a: &str)
    ensures
        texts(final(args)@) == texts(old(args)@).push(a@),
{
    args.push(a.to_owned());
    proof {
        assert(texts(args@) =~= texts(old(args)@).push(a@));
    }
}

fn push_owned(args: &mut Vec<String>, a: String)
    ensures
        texts(final(args)@) == texts(old(args)@).push(a@),
{
    args.push(a);
    proof {
        assert(texts(args@) =~= texts(old(args)@).push(a@));
    }
}

fn append_args(args: &mut Vec<String>, more: Vec<String>)
    ensures
        texts(final(args)@) == texts(old(args)@) + texts(more@),
{
    let mut more = more;
    let ghost tail = more@;
    args.append(&mut more);
    proof {
        assert(texts(args@) =~= texts(old(args)@) + texts(tail));
    }
}

/// The ffprobe arguments that report the format and streams of `path`
/// as JSON.
pub open spec fn probe_args_spec(path: Seq<char>) -> Seq<Seq<char>> {
    seq!["-v"@, "error"@, "-print_format"@, "json"@, "-show_format"@, "-show_streams"@, path]
}

/// The ffprobe arguments for probing `path`.
pub fn probe_args(path: &str) -> (r: Vec<String>)
    ensures
        texts(r@) == probe_args_spec(path@),
{
    let mut args: Vec<String> = Vec::new();
    push_arg(&mut args, "-v");
    push_arg(&mut args, "error");
    push_arg(&mut args, "-print_format");
    push_arg(&mut args, "json");
    push_arg(&mut args, "-show_format");
    push_arg(&mut args, "-show_streams");
    push_arg(&mut args, path);
    proof {
        assert(texts(args@) =~= probe_args_spec(path@));
    }
    args
}

/// The scaling of an extracted frame: to `w` pixels wide keeping the
/// aspect ratio, or the source size.
pub open spec fn scale_filter(max_width: Option<u32>) -> Seq<char> {
    match max_width {
        Some(w) => "scale="@ + decimal(w as nat) + ":-1"@,
        None => "scale=iw:ih"@,
    }
}

/// The ffmpeg arguments that decode one frame of `path` at the position
/// written `time` and print it as PNG on standard output.
pub open spec fn frame_extract_args_spec(
    time: Seq<char>,
    path: Seq<char>,
    max_width: Option<u32>,
) -> Seq<Seq<char>> {
    seq![
        "-y"@,
        "-loglevel"@,
        "error"@,
        "-ss"@,
        time,
        "-i"@,
        path,
        "-frames:v"@,
        "1"@,
        "-vf"@,
        scale_filter(max_width) + ",format=rgba"@,
        "-f"@,
        "image2pipe"@,
        "-vcodec"@,
        "png"@,
        "-"@,
    ]
}

/// The ffmpeg arguments for extracting the frame of `path` at `time`
/// (seconds, as text), at most `max_width` pixels wide.
pub fn frame_extract_args(time: &str, path: &str, max_width: Option<u32>) -> (r: Vec<String>)
    ensures
        texts(r@) == frame_extract_args_spec(time@, path@, max_width),
{
    let mut vf = String::new();
    match max_width {
        Some(w) => {
            append_str(&mut vf, "scale=");
            let digits = decimal_string(w as u64);
            append_str(&mut vf, digits.as_str());
            append_str(&mut vf, ":-1");
        },
        None => {
            append_str(&mut vf, "scale=iw:ih");
        },
    }
    append_str(&mut vf, ",format=rgba");
    proof {
        assert(vf@ =~= scale_filter(max_width) + ",format=rgba"@);
    }
    let mut args: Vec<String> = Vec::new();
    push_arg(&mut args, "-y");
    push_arg(&mut args, "-loglevel");
    push_arg(&mut args, "error");
    push_arg(&mut args, "-ss");
    push_arg(&mut args, time);
    push_arg(&mut args, "-i");
    push_arg(&mut args, path);
    push_arg(&mut args, "-frames:v");
    push_arg(&mut args, "1");
    push_arg(&mut args, "-vf");
    push_owned(&mut args, vf);
    push_arg(&mut args, "-f");
    push_arg(&mut args, "image2pipe");
    push_arg(&mut args, "-vcodec");
    push_arg(&mut args, "png");
    push_arg(&mut args, "-");
    proof {
        assert(texts(args@) =~= frame_extract_args_spec(time@, path@, max_width));
    }
    args
}

/// The filter graph of a stream-copy export: for more than one clip, a
/// `concat` of them (with audio for an audio track), then scaling and
/// padding to the output size, the frame rate written `fps`, and the
/// codec's pixel format.
pub open spec fn concat_filter_spec(
    clip_count: nat,
    kind: TrackKind,
    width: u32,
    height: u32,
    fps: Seq<char>,
    codec: ExportVideoCodec,
) -> Seq<char> {
    (if clip_count > 1 {
        "concat=n="@ + decimal(clip_count) + ":v=1"@ + (if kind == TrackKind::Audio {
            ":a=1"@
        } else {
            ":a=0"@
        }) + " "@
    } else {
        Seq::empty()
    }) + "scale="@ + decimal(width as nat) + ":"@ + decimal(height as nat)
        + ":force_original_aspect_ratio=decrease,pad="@ + decimal(width as nat) + ":"@ + decimal(
        height as nat,
    ) + ":(ow-iw)/2:(oh-ih)/2,fps="@ + fps + ",format="@ + pix_fmt_name(codec)
}

/// The filter graph for concatenating `clip_count` clips of a track of
/// `kind` into a `width`×`height` output at the frame rate written `fps`.
pub fn concat_filter(
    clip_count: usize,
    kind: TrackKind,
    width: u32,
    height: u32,
    fps: &str,
    codec: ExportVideoCodec,
) -> (r: String)
    ensures
        r@ == concat_filter_spec(clip_count as nat, kind, width, height, fps@, codec),
{
    let mut f = String::new();
    if clip_count > 1 {
        append_str(&mut f, "concat=n=");
        let n = decimal_string(clip_count as u64);
        append_str(&mut f, n.as_str());
        append_str(&mut f, ":v=1");
        if kind == TrackKind::Audio {
            append_str(&mut f, ":a=1");
        } else {
            append_str(&mut f, ":a=0");
        }
        append_str(&mut f, " ");
    }
    let ghost head = f@;
    let w = decimal_string(width as u64);
    let h = decimal_string(height as u64);
    append_str(&mut f, "scale=");
    append_str(&mut f, w.as_str());
    append_str(&mut f, ":");
    append_str(&mut f, h.as_str());
    append_str(&mut f, ":force_original_aspect_ratio=decrease,pad=");
    append_str(&mut f, w.as_str());
    append_str(&mut f, ":");
    append_str(&mut f, h.as_str());
    append_str(&mut f, ":(ow-iw)/2:(oh-ih)/2,fps=");
    append_str(&mut f, fps);
    append_str(&mut f, ",format=");
    append_str(&mut f, codec.pix_fmt());
    proof {
        assert(f@ =~= concat_filter_spec(clip_count as nat, kind, width, height, fps@, codec));
    }
    f
}

/// The stream mappings of a stream-copy export: the concatenated video,
/// and for an audio track the concatenated audio too; none for a single
/// clip.
pub open spec fn concat_map_args_spec(clip_count: nat, kind: TrackKind) -> Seq<Seq<char>> {
    if clip_count > 1 {
        if kind == TrackKind::Audio {
            seq!["-map"@, "[0:v]"@, "-map"@, "[0:a]"@]
        } else {
            seq!["-map"@, "[0:v]"@]
        }
    } else {
        Seq::empty()
    }
}

/// One input per clip: seek to the clip's source start, read its
/// duration (both written as text), from `input`.
pub open spec fn clip_input_args(seeks: Seq<(Seq<char>, Seq<char>)>, input: Seq<char>) -> Seq<
    Seq<char>,
>
    decreases seeks.len(),
{
    if seeks.len() == 0 {
        Seq::empty()
    } else {
        clip_input_args(seeks.drop_last(), input) + seq![
            "-ss"@,
            seeks.last().0,
            "-t"@,
            seeks.last().1,
            "-i"@,
            input,
        ]
    }
}

/// The texts of (start, duration) pairs.
pub open spec fn seek_texts(seeks: Seq<(String, String)>) -> Seq<(Seq<char>, Seq<char>)> {
    seeks.map_values(|p: (String, String)| (p.0@, p.1@))
}

/// The whole ffmpeg command line of a stream-copy export: overwrite,
/// errors only, the clip inputs, the filter graph, the mappings, the
/// encoder arguments and the output path.
pub open spec fn concat_command_spec(
    seeks: Seq<(Seq<char>, Seq<char>)>,
    input: Seq<char>,
    kind: TrackKind,
    width: u32,
    height: u32,
    fps: Seq<char>,
    enc: EncoderSettings,
    output: Seq<char>,
) -> Seq<Seq<char>> {
    seq!["-y"@, "-loglevel"@, "error"@] + clip_input_args(seeks, input) + seq![
        "-filter_complex"@,
        concat_filter_spec(seeks.len(), kind, width, height, fps, enc.video_codec),
    ] + concat_map_args_spec(seeks.len(), kind) + encoder_args_spec(enc) + seq![output]
}

/// The ffmpeg command line exporting the clips of one track, all cut
/// from `input`: `seeks` holds each clip's source start and duration as
/// text, in timeline order.
pub fn concat_command(
    seeks: &Vec<(String, String)>,
    input: &str,
    kind: TrackKind,
    width: u32,
    height: u32,
    fps: &str,
    enc: &EncoderSettings,
    output: &str,
) -> (r: Vec<String>)
    ensures
        texts(r@) == concat_command_spec(
            seek_texts(seeks@),
            input@,
            kind,
            width,
            height,
            fps@,
            *enc,
            output@,
        ),
{
    let mut args: Vec<String> = Vec::new();
    push_arg(&mut args, "-y");
    push_arg(&mut args, "-loglevel");
    push_arg(&mut args, "error");
    let ghost head = texts(args@);
    let mut i: usize = 0;
    while i < seeks.len()
        invariant
            i <= seeks@.len(),
            texts(args@) == head + clip_input_args(seek_texts(seeks@).take(i as int), input@),
        decreases seeks@.len() - i,
    {
        let ghost before = texts(args@);
        push_arg(&mut args, "-ss");
        push_owned(&mut args, seeks[i].0.clone());
        push_arg(&mut args, "-t");
        push_owned(&mut args, seeks[i].1.clone());
        push_arg(&mut args, "-i");
        push_arg(&mut args, input);
        proof {
            let st = seek_texts(seeks@);
            assert(st.take(i + 1).drop_last() =~= st.take(i as int));
            assert(st.take(i + 1).last() == st[i as int]);
            assert(texts(args@) =~= before + seq![
                "-ss"@,
                st[i as int].0,
                "-t"@,
                st[i as int].1,
                "-i"@,
                input@,
            ]);
        }
        i = i + 1;
    }
    proof {
        assert(seek_texts(seeks@).take(i as int) =~= seek_texts(seeks@));
    }
    push_arg(&mut args, "-filter_complex");
    let filter = concat_filter(seeks.len(), kind, width, height, fps, enc.video_codec);
    push_owned(&mut args, filter);
    if seeks.len() > 1 {
        push_arg(&mut args, "-map");
        push_arg(&mut args, "[0:v]");
        if kind == TrackKind::Audio {
            push_arg(&mut args, "-map");
            push_arg(&mut args, "[0:a]");
        }
    }
    let ghost before_enc = texts(args@);
    assert(before_enc =~= seq!["-y"@, "-loglevel"@, "error"@] + clip_input_args(
        seek_texts(seeks@),
        input@,
    ) + seq![
        "-filter_complex"@,
        concat_filter_spec(seeks@.len(), kind, width, height, fps@, enc.video_codec),
    ] + concat_map_args_spec(seeks@.len(), kind));
    let enc_args = encoder_args(enc);
    append_args(&mut args, enc_args);
    push_arg(&mut args, output);
    proof {
        assert(texts(args@) =~= concat_command_spec(
            seek_texts(seeks@),
            input@,
            kind,
            width,
            height,
            fps@,
            *enc,
            output@,
        ));
    }
    args
}

/// The whole ffmpeg command line of a frame-pipe export: raw RGBA frames
/// of `width`×`height` at the frame rate written `fps` read from standard
/// input, then the encoder arguments and the output path.
pub open spec fn frame_pipe_command_spec(
    width: u32,
    height: u32,
    fps: Seq<char>,
    enc: EncoderSettings,
    output: Seq<char>,
) -> Seq<Seq<char>> {
    seq![
        "-y"@,
        "-loglevel"@,
        "error"@,
        "-f"@,
        "rawvideo"@,
        "-pix_fmt"@,
        "rgba"@,
        "-s"@,
        decimal(width as nat) + "x"@ + decimal(height as nat),
        "-r"@,
        fps,
        "-i"@,
        "-"@,
    ] + encoder_args_spec(enc) + seq![output]
}

/// The ffmpeg command line of a frame-pipe export.
pub fn frame_pipe_command(
    width: u32,
    height: u32,
    fps: &str,
    enc: &EncoderSettings,
    output: &str,
) -> (r: Vec<String>)
    ensures
        texts(r@) == frame_pipe_command_spec(width, height, fps@, *enc, output@),
{
    let mut size = decimal_string(width as u64);
    append_str(&mut size, "x");
    let h = decimal_string(height as u64);
    append_str(&mut size, h.as_str());
    let mut args: Vec<String> = Vec::new();
    push_arg(&mut args, "-y");
    push_arg(&mut args, "-loglevel");
    push_arg(&mut args, "error");
    push_arg(&mut args, "-f");
    push_arg(&mut args, "rawvideo");
    push_arg(&mut args, "-pix_fmt");
    push_arg(&mut args, "rgba");
    push_arg(&mut args, "-s");
    push_owned(&mut args, size);
    push_arg(&mut args, "-r");
    push_arg(&mut args, fps);
    push_arg(&mut args, "-i");
    push_arg(&mut args, "-");
    let enc_args = encoder_args(enc);
    append_args(&mut args, enc_args);
    push_arg(&mut args, output);
    proof {
        assert(texts(args@) =~= frame_pipe_command_spec(width, height, fps@, *enc, output@));
    }
    args
}

proof fn lemma_clip_input_args_len(seeks: Seq<(Seq<char>, Seq<char>)>, input: Seq<char>)
    ensures
        clip_input_args(seeks, input).len() == 6 * seeks.len(),
    decreases seeks.len(),
{
    if seeks.len() > 0 {
        lemma_clip_input_args_len(seeks.drop_last(), input);
    }
}

/// A stream-copy export of several clips maps the concatenated video, and
/// for an audio track also the concatenated audio its filter graph makes:
/// the command line holds `-map` followed by `[0:v]`, and for an audio
/// track `-map` followed by `[0:a]`.
pub proof fn lemma_concat_maps_streams(
    seeks: Seq<(Seq<char>, Seq<char>)>,
    input: Seq<char>,
    kind: TrackKind,
    width: u32,
    height: u32,
    fps: Seq<char>,
    enc: EncoderSettings,
    output: Seq<char>,
)
    requires
        seeks.len() > 1,
    ensures
        exists|i: int|
            0 <= i && i + 1 < concat_command_spec(seeks, input, kind, width, height, fps, enc, output).len()
                && #[trigger] concat_command_spec(seeks, input, kind, width, height, fps, enc, output)[i]
                == "-map"@ && concat_command_spec(seeks, input, kind, width, height, fps, enc, output)[i
                + 1] == "[0:v]"@,
        kind == TrackKind::Audio ==> exists|i: int|
            0 <= i && i + 1 < concat_command_spec(seeks, input, kind, width, height, fps, enc, output).len()
                && #[trigger] concat_command_spec(seeks, input, kind, width, height, fps, enc, output)[i]
                == "-map"@ && concat_command_spec(seeks, input, kind, width, height, fps, enc, output)[i
                + 1] == "[0:a]"@,
{
    lemma_clip_input_args_len(seeks, input);
    let cmd = concat_command_spec(seeks, input, kind, width, height, fps, enc, output);
    let p: int = 3 + 6 * seeks.len() as int + 2;
    assert(cmd[p] == "-map"@);
    assert(cmd[p + 1] == "[0:v]"@);
    if kind == TrackKind::Audio {
        assert(cmd[p + 2] == "-map"@);
        assert(cmd[p + 3] == "[0:a]"@);
    }
}

} // verus!
