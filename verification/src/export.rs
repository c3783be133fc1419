//! Export settings, the encoder arguments they select, and the choice of
//! export strategy.

use crate::id::Id;
use crate::text::push_char;
use crate::time::ZERO_KEY;
use crate::timeline::{tracks_end, Clip, Timeline, Track};
use vstd::prelude::*;

verus! {

/// Output container format.
#[derive(Clone, Copy, PartialEq, Eq, Debug, Structural)]
pub enum ExportFormat {
    Mp4,
    Mkv,
    Mov,
    Webm,
}

impl ExportFormat {
    /// File extension for the format.
    pub fn extension(self) -> (r: &'static str)
        ensures
            r@ == match self {
                ExportFormat::Mp4 => "mp4"@,
                ExportFormat::Mkv => "mkv"@,
                ExportFormat::Mov => "mov"@,
                ExportFormat::Webm => "webm"@,
            },
    {
        match self {
            ExportFormat::Mp4 => "mp4",
            ExportFormat::Mkv => "mkv",
            ExportFormat::Mov => "mov",
            ExportFormat::Webm => "webm",
        }
    }

    /// Name of the ffmpeg muxer that writes the format.
    pub fn ffmpeg_muxer(self) -> (r: &'static str)
        ensures
            r@ == muxer_name(self),
    {
        match self {
            ExportFormat::Mp4 => "mp4",
            ExportFormat::Mkv => "matroska",
            ExportFormat::Mov => "mov",
            ExportFormat::Webm => "webm",
        }
    }
}

/// Name of the ffmpeg muxer for `f`.
pub open spec fn muxer_name(f: ExportFormat) -> Seq<char> {
    match f {
        ExportFormat::Mp4 => "mp4"@,
        ExportFormat::Mkv => "matroska"@,
        ExportFormat::Mov => "mov"@,
        ExportFormat::Webm => "webm"@,
    }
}

/// Video codec of the output.
#[derive(Clone, Copy, PartialEq, Eq, Debug, Structural)]
pub enum ExportVideoCodec {
    H264,
    H265,
    Av1,
    Vp9,
    Prores,
}

/// Name of the ffmpeg encoder for video codec `c`.
pub open spec fn video_encoder_name(c: ExportVideoCodec) -> Seq<char> {
    match c {
        ExportVideoCodec::H264 => "libx264"@,
        ExportVideoCodec::H265 => "libx265"@,
        ExportVideoCodec::Av1 => "libsvtav1"@,
        ExportVideoCodec::Vp9 => "libvpx-vp9"@,
        ExportVideoCodec::Prores => "prores_ks"@,
    }
}

/// Pixel format used with video codec `c`.
pub open spec fn pix_fmt_name(c: ExportVideoCodec) -> Seq<char> {
    match c {
        ExportVideoCodec::Prores => "yuv422p10le"@,
        _ => "yuv420p"@,
    }
}

impl ExportVideoCodec {
    /// Name of the ffmpeg encoder for the codec.
    pub fn ffmpeg_encoder(self) -> (r: &'static str)
        ensures
            r@ == video_encoder_name(self),
    {
        match self {
            ExportVideoCodec::H264 => "libx264",
            ExportVideoCodec::H265 => "libx265",
            ExportVideoCodec::Av1 => "libsvtav1",
            ExportVideoCodec::Vp9 => "libvpx-vp9",
            ExportVideoCodec::Prores => "prores_ks",
        }
    }

    /// Pixel format the codec is fed.
    pub fn pix_fmt(self) -> (r: &'static str)
        ensures
            r@ == pix_fmt_name(self),
    {
        match self {
            ExportVideoCodec::Prores => "yuv422p10le",
            _ => "yuv420p",
        }
    }
}

/// Audio codec of the output.
#[derive(Clone, Copy, PartialEq, Eq, Debug, Structural)]
pub enum ExportAudioCodec {
    Aac,
    Opus,
    PcmS16le,
}

/// Name of the ffmpeg encoder for audio codec `c`.
pub open spec fn audio_encoder_name(c: ExportAudioCodec) -> Seq<char> {
    match c {
        ExportAudioCodec::Aac => "aac"@,
        ExportAudioCodec::Opus => "libopus"@,
        ExportAudioCodec::PcmS16le => "pcm_s16le"@,
    }
}

impl ExportAudioCodec {
    /// Name of the ffmpeg encoder for the codec.
    pub fn ffmpeg_encoder(self) -> (r: &'static str)
        ensures
            r@ == audio_encoder_name(self),
    {
        match self {
            ExportAudioCodec::Aac => "aac",
            ExportAudioCodec::Opus => "libopus",
            ExportAudioCodec::PcmS16le => "pcm_s16le",
        }
    }
}

/// Which export path to take.
#[derive(Clone, Copy, PartialEq, Eq, Debug, Structural)]
pub enum ExportStrategy {
    /// Stitch source clips with ffmpeg's `concat` filter: fast, but only
    /// for a single track whose clips all come from one asset.
    Concat,
    /// Render frame by frame and pipe raw frames to ffmpeg.
    FramePipe,
}

/// Every clip of `clips` comes from the same asset, and there is one.
pub open spec fn single_asset(clips: Seq<Clip>) -> bool {
    clips.len() > 0 && forall|i: int|
        0 <= i < clips.len() ==> (#[trigger] clips[i]).source.asset_id == clips[0].source.asset_id
}

/// Exactly one track has clips, and they all come from one asset.
pub open spec fn concat_applies(tracks: Seq<Track>) -> bool {
    exists|i: int|
        0 <= i < tracks.len() && single_asset((#[trigger] tracks[i]).clips@) && forall|j: int|
            0 <= j < tracks.len() && j != i ==> (#[trigger] tracks[j]).clips@.len() == 0
}

/// `i` is the one track that has clips.
pub open spec fn sole_nonempty(tracks: Seq<Track>, i: int) -> bool {
    0 <= i < tracks.len() && tracks[i].clips@.len() > 0 && forall|j: int|
        0 <= j < tracks.len() && j != i ==> (#[trigger] tracks[j]).clips@.len() == 0
}

/// The index of the only track with clips, if exactly one track has clips.
fn sole_nonempty_track(tracks: &Vec<Track>) -> (r: Option<usize>)
    ensures
        r matches Some(i) ==> sole_nonempty(tracks@, i as int),
        r is None ==> forall|i: int| !sole_nonempty(tracks@, i),
{
    let mut count: usize = 0;
    let mut first: usize = 0;
    let mut i: usize = 0;
    while i < tracks.len()
        invariant
            i <= tracks@.len(),
            count <= 2,
            count == 0 ==> forall|j: int| 0 <= j < i ==> (#[trigger] tracks@[j]).clips@.len() == 0,
            count >= 1 ==> first < i && tracks@[first as int].clips@.len() > 0,
            count == 1 ==> forall|j: int|
                0 <= j < i && j != first ==> (#[trigger] tracks@[j]).clips@.len() == 0,
            count == 2 ==> exists|a: int, b: int|
                0 <= a < b < i && (#[trigger] tracks@[a]).clips@.len() > 0
                    && (#[trigger] tracks@[b]).clips@.len() > 0,
        decreases tracks@.len() - i,
    {
        if tracks[i].clips.len() > 0 {
            if count == 0 {
                first = i;
                count = 1;
            } else if count == 1 {
                assert(tracks@[first as int].clips@.len() > 0);
                count = 2;
            }
        }
        i = i + 1;
    }
    if count == 1 {
        return Some(first);
    }
    proof {
        if count == 2 {
            let (a, b) = choose|a: int, b: int|
                0 <= a < b < tracks@.len() && (#[trigger] tracks@[a]).clips@.len() > 0
                    && (#[trigger] tracks@[b]).clips@.len() > 0;
            assert forall|k: int| !sole_nonempty(tracks@, k) by {
                if 0 <= k < tracks@.len() && k == a {
                    assert(tracks@[b].clips@.len() > 0);
                } else if 0 <= k < tracks@.len() {
                    assert(tracks@[a].clips@.len() > 0);
                }
            }
        }
    }
    None
}

/// Whether all clips come from the asset of the first one (and there is one).
fn all_same_asset(clips: &Vec<Clip>) -> (r: bool)
    ensures
        r == single_asset(clips@),
{
    if clips.len() == 0 {
        return false;
    }
    let asset = clips[0].source.asset_id;
    let mut k: usize = 1;
    while k < clips.len()
        invariant
            1 <= k <= clips@.len(),
            asset == clips@[0].source.asset_id,
            forall|j: int| 0 <= j < k ==> (#[trigger] clips@[j]).source.asset_id == asset,
        decreases clips@.len() - k,
    {
        if clips[k].source.asset_id != asset {
            assert(clips@[k as int].source.asset_id != clips@[0].source.asset_id);
            return false;
        }
        k = k + 1;
    }
    true
}

/// Decide the export strategy from the shape of the timeline: `Concat`
/// when exactly one track has clips and they all come from one asset,
/// `FramePipe` otherwise.
pub fn pick_strategy(timeline: &Timeline) -> (r: ExportStrategy)
    ensures
        r == (if concat_applies(timeline.tracks@) {
            ExportStrategy::Concat
        } else {
            ExportStrategy::FramePipe
        }),
{
    match sole_nonempty_track(&timeline.tracks) {
        Some(i) => {
            if all_same_asset(&timeline.tracks[i].clips) {
                assert(sole_nonempty(timeline.tracks@, i as int));
                ExportStrategy::Concat
            } else {
                proof {
                    if concat_applies(timeline.tracks@) {
                        let m = choose|m: int|
                            0 <= m < timeline.tracks@.len() && single_asset(
                                (#[trigger] timeline.tracks@[m]).clips@,
                            ) && forall|j: int|
                                0 <= j < timeline.tracks@.len() && j != m
                                    ==> (#[trigger] timeline.tracks@[j]).clips@.len() == 0;
                        if m != i {
                            assert(timeline.tracks@[i as int].clips@.len() > 0);
                        }
                    }
                }
                ExportStrategy::FramePipe
            }
        },
        None => {
            proof {
                if concat_applies(timeline.tracks@) {
                    let m = choose|m: int|
                        0 <= m < timeline.tracks@.len() && single_asset(
                            (#[trigger] timeline.tracks@[m]).clips@,
                        ) && forall|j: int|
                            0 <= j < timeline.tracks@.len() && j != m
                                ==> (#[trigger] timeline.tracks@[j]).clips@.len() == 0;
                    assert(sole_nonempty(timeline.tracks@, m));
                }
            }
            ExportStrategy::FramePipe
        },
    }
}

/// The decimal digits of `n`, most significant first, without leading zeros.
pub open spec fn decimal(n: nat) -> Seq<char>
    decreases n,
{
    if n < 10 {
        seq![(48 + n) as char]
    } else {
        decimal(n / 10).push((48 + n % 10) as char)
    }
}

/// The decimal text of `n`.
pub fn decimal_string(n: u64) -> (r: String)
    ensures
        r@ == decimal(n as nat),
    decreases n,
{
    if n < 10 {
        let mut s = String::new();
        push_char(&mut s, char_of_digit(n as u8));
        s
    } else {
        let mut s = decimal_string(n / 10);
        push_char(&mut s, char_of_digit((n % 10) as u8));
        s
    }
}

fn char_of_digit(d: u8) -> (r: char)
    requires
        d < 10,
    ensures
        r == (48 + d) as char,
{
    (48 + d) as char
}

/// Bit pattern of 30.0, the default frame rate.
pub const FPS_30_BITS: u64 = 0x403E_0000_0000_0000;

/// What the final render looks like.
#[derive(Clone, Copy, PartialEq, Eq, Debug, Structural)]
pub struct ExportSettings {
    pub format: ExportFormat,
    pub video_codec: ExportVideoCodec,
    pub audio_codec: ExportAudioCodec,
    pub width: u32,
    pub height: u32,
    /// Bit pattern of the frame rate (frames per second).
    pub fps_bits: u64,
    /// Target video bitrate in bits/second; 0 selects constant quality.
    pub video_bitrate: u64,
    /// Constant-quality factor, used when `video_bitrate` is 0.
    pub crf: u32,
    /// Audio bitrate in bits/second.
    pub audio_bitrate: u64,
    /// Audio sample rate in Hz.
    pub audio_sample_rate: u32,
    /// Number of audio channels.
    pub audio_channels: u32,
    /// Use hardware acceleration where available.
    pub hardware_accel: bool,
}

/// The default export: 1920×1080 H.264 in MP4 at 30 frames per second,
/// constant quality 20, AAC audio at 192 kb/s, 48 kHz, stereo.
pub open spec fn default_export() -> ExportSettings {
    ExportSettings {
        format: ExportFormat::Mp4,
        video_codec: ExportVideoCodec::H264,
        audio_codec: ExportAudioCodec::Aac,
        width: 1920,
        height: 1080,
        fps_bits: FPS_30_BITS,
        video_bitrate: 0,
        crf: 20,
        audio_bitrate: 192_000,
        audio_sample_rate: 48_000,
        audio_channels: 2,
        hardware_accel: false,
    }
}

impl Default for ExportSettings {
    fn default() -> (r: ExportSettings)
        ensures
            r == default_export(),
    {
        ExportSettings {
            format: ExportFormat::Mp4,
            video_codec: ExportVideoCodec::H264,
            audio_codec: ExportAudioCodec::Aac,
            width: 1920,
            height: 1080,
            fps_bits: FPS_30_BITS,
            video_bitrate: 0,
            crf: 20,
            audio_bitrate: 192_000,
            audio_sample_rate: 48_000,
            audio_channels: 2,
            hardware_accel: false,
        }
    }
}

impl ExportSettings {
    /// 1080p H.264 MP4: the default.
    pub fn preset_1080p_h264() -> (r: ExportSettings)
        ensures
            r == default_export(),
    {
        ExportSettings::default()
    }

    /// 4K H.265 MP4 at 30 frames per second, constant quality 22.
    pub fn preset_4k_h265() -> (r: ExportSettings)
        ensures
            r == (ExportSettings {
                width: 3840,
                height: 2160,
                fps_bits: FPS_30_BITS,
                video_codec: ExportVideoCodec::H265,
                crf: 22,
                ..default_export()
            }),
    {
        ExportSettings {
            width: 3840,
            height: 2160,
            fps_bits: FPS_30_BITS,
            video_codec: ExportVideoCodec::H265,
            crf: 22,
            ..ExportSettings::default()
        }
    }

    /// 720p H.264 MP4 at 30 frames per second, constant quality 23.
    pub fn preset_720p_h264() -> (r: ExportSettings)
        ensures
            r == (ExportSettings {
                width: 1280,
                height: 720,
                fps_bits: FPS_30_BITS,
                crf: 23,
                ..default_export()
            }),
    {
        ExportSettings {
            width: 1280,
            height: 720,
            fps_bits: FPS_30_BITS,
            crf: 23,
            ..ExportSettings::default()
        }
    }

    /// The settings the encoder arguments are made from.
    pub fn encoder_settings(&self) -> (r: EncoderSettings)
        ensures
            r == (EncoderSettings {
                format: self.format,
                video_codec: self.video_codec,
                audio_codec: self.audio_codec,
                video_bitrate: self.video_bitrate,
                crf: self.crf,
                audio_bitrate: self.audio_bitrate,
                audio_sample_rate: self.audio_sample_rate,
                audio_channels: self.audio_channels,
            }),
    {
        EncoderSettings {
            format: self.format,
            video_codec: self.video_codec,
            audio_codec: self.audio_codec,
            video_bitrate: self.video_bitrate,
            crf: self.crf,
            audio_bitrate: self.audio_bitrate,
            audio_sample_rate: self.audio_sample_rate,
            audio_channels: self.audio_channels,
        }
    }
}

/// What the encoder arguments are made from.
#[derive(Clone, Copy, PartialEq, Eq, Debug)]
pub struct EncoderSettings {
    pub format: ExportFormat,
    pub video_codec: ExportVideoCodec,
    pub audio_codec: ExportAudioCodec,
    /// Target video bitrate in bits/second; 0 selects constant quality.
    pub video_bitrate: u64,
    /// Constant-quality factor, used when `video_bitrate` is 0.
    pub crf: u32,
    /// Audio bitrate in bits/second.
    pub audio_bitrate: u64,
    /// Audio sample rate in Hz.
    pub audio_sample_rate: u32,
    /// Number of audio channels.
    pub audio_channels: u32,
}

/// Codec-specific rate-control arguments.
pub open spec fn rate_control_args(s: EncoderSettings) -> Seq<Seq<char>> {
    match s.video_codec {
        ExportVideoCodec::H264 | ExportVideoCodec::H265 => (if s.video_bitrate > 0 {
            seq!["-b:v"@, decimal(s.video_bitrate as nat)]
        } else {
            seq!["-crf"@, decimal(s.crf as nat)]
        }) + seq!["-preset"@, "medium"@],
        ExportVideoCodec::Av1 => seq![
            "-crf"@,
            decimal(s.crf as nat),
            "-preset"@,
            "8"@,
            "-svtav1-params"@,
            "tile-columns=2"@,
        ],
        ExportVideoCodec::Vp9 => seq!["-crf"@, decimal(s.crf as nat), "-b:v"@, "0"@],
        ExportVideoCodec::Prores => seq!["-profile:v"@, "2"@],
    }
}

/// The ffmpeg output arguments for the given settings: video encoder and
/// pixel format, rate control, audio encoder (left out for PCM audio in
/// Matroska), audio bitrate, rate and channels, muxer and fast start.
pub open spec fn encoder_args_spec(s: EncoderSettings) -> Seq<Seq<char>> {
    seq!["-c:v"@, video_encoder_name(s.video_codec), "-pix_fmt"@, pix_fmt_name(s.video_codec)]
        + rate_control_args(s) + (if s.audio_codec != ExportAudioCodec::PcmS16le || s.format
        != ExportFormat::Mkv {
        seq!["-c:a"@, audio_encoder_name(s.audio_codec)]
    } else {
        Seq::empty()
    }) + seq![
        "-b:a"@,
        decimal(s.audio_bitrate as nat),
        "-ar"@,
        decimal(s.audio_sample_rate as nat),
        "-ac"@,
        decimal(s.audio_channels as nat),
        "-f"@,
        muxer_name(s.format),
        "-movflags"@,
        "+faststart"@,
    ]
}

fn push_str(args: &mut Vec<String>, a: &str)
    ensures
        final(args)@.len() == old(args)@.len() + 1,
        forall|i: int| 0 <= i < old(args)@.len() ==> final(args)@[i] == old(args)@[i],
        final(args)@[old(args)@.len() as int]@ == a@,
{
    args.push(a.to_owned());
}

fn push_string(args: &mut Vec<String>, a: String)
    ensures
        final(args)@ == old(args)@.push(a),
{
    args.push(a);
}

/// The ffmpeg output arguments for `s`, in order.
pub fn encoder_args(s: &EncoderSettings) -> (r: Vec<String>)
    ensures
        r@.map_values(|a: String| a@) == encoder_args_spec(*s),
{
    let mut args: Vec<String> = Vec::new();
    push_str(&mut args, "-c:v");
    push_str(&mut args, s.video_codec.ffmpeg_encoder());
    push_str(&mut args, "-pix_fmt");
    push_str(&mut args, s.video_codec.pix_fmt());
    let ghost head = args@.map_values(|a: String| a@);
    assert(head =~= seq![
        "-c:v"@,
        video_encoder_name(s.video_codec),
        "-pix_fmt"@,
        pix_fmt_name(s.video_codec),
    ]);
    let mut rate: Vec<String> = Vec::new();
    match s.video_codec {
        ExportVideoCodec::H264 | ExportVideoCodec::H265 => {
            if s.video_bitrate > 0 {
                push_str(&mut rate, "-b:v");
                push_string(&mut rate, decimal_string(s.video_bitrate));
            } else {
                push_str(&mut rate, "-crf");
                push_string(&mut rate, decimal_string(s.crf as u64));
            }
            push_str(&mut rate, "-preset");
            push_str(&mut rate, "medium");
        },
        ExportVideoCodec::Av1 => {
            push_str(&mut rate, "-crf");
            push_string(&mut rate, decimal_string(s.crf as u64));
            push_str(&mut rate, "-preset");
            push_str(&mut rate, "8");
            push_str(&mut rate, "-svtav1-params");
            push_str(&mut rate, "tile-columns=2");
        },
        ExportVideoCodec::Vp9 => {
            push_str(&mut rate, "-crf");
            push_string(&mut rate, decimal_string(s.crf as u64));
            push_str(&mut rate, "-b:v");
            push_str(&mut rate, "0");
        },
        ExportVideoCodec::Prores => {
            push_str(&mut rate, "-profile:v");
            push_str(&mut rate, "2");
        },
    }
    assert(rate@.map_values(|a: String| a@) =~= rate_control_args(*s));
    let mut audio: Vec<String> = Vec::new();
    if s.audio_codec != ExportAudioCodec::PcmS16le || s.format != ExportFormat::Mkv {
        push_str(&mut audio, "-c:a");
        push_str(&mut audio, s.audio_codec.ffmpeg_encoder());
    }
    push_str(&mut audio, "-b:a");
    push_string(&mut audio, decimal_string(s.audio_bitrate));
    push_str(&mut audio, "-ar");
    push_string(&mut audio, decimal_string(s.audio_sample_rate as u64));
    push_str(&mut audio, "-ac");
    push_string(&mut audio, decimal_string(s.audio_channels as u64));
    push_str(&mut audio, "-f");
    push_str(&mut audio, s.format.ffmpeg_muxer());
    push_str(&mut audio, "-movflags");
    push_str(&mut audio, "+faststart");
    let ghost tail = audio@.map_values(|a: String| a@);
    assert(tail =~= (if s.audio_codec != ExportAudioCodec::PcmS16le || s.format
        != ExportFormat::Mkv {
        seq!["-c:a"@, audio_encoder_name(s.audio_codec)]
    } else {
        Seq::empty()
    }) + seq![
        "-b:a"@,
        decimal(s.audio_bitrate as nat),
        "-ar"@,
        decimal(s.audio_sample_rate as nat),
        "-ac"@,
        decimal(s.audio_channels as nat),
        "-f"@,
        muxer_name(s.format),
        "-movflags"@,
        "+faststart"@,
    ]);
    let ghost a1 = args@;
    args.append(&mut rate);
    let ghost a2 = args@;
    args.append(&mut audio);
    assert(args@.map_values(|a: String| a@) =~= head + rate_control_args(*s) + tail);
    args
}

/// Decimal text is made of digits only, and is never empty.
proof fn lemma_decimal_digits(n: nat)
    ensures
        decimal(n).len() >= 1,
        forall|k: int| 0 <= k < decimal(n).len() ==> 48 <= (#[trigger] decimal(n)[k]) as u32 <= 57,
    decreases n,
{
    if n >= 10 {
        lemma_decimal_digits(n / 10);
        let d = decimal(n / 10);
        assert forall|k: int| 0 <= k < decimal(n).len() implies 48 <= (#[trigger] decimal(n)[k]) as u32
            <= 57 by {
            if k < d.len() {
                assert(decimal(n)[k] == d[k]);
            }
        }
    }
}

/// The texts of the encoder arguments, character by character as far as
/// they need telling apart.
proof fn lemma_argument_texts()
    ensures
        "-c:v"@.len() == 4 && "-c:v"@[0] == '-',
        "libx264"@.len() == 7 && "libx264"@[0] == 'l',
        "libx265"@.len() == 7 && "libx265"@[0] == 'l',
        "-pix_fmt"@.len() == 8 && "-pix_fmt"@[0] == '-',
        "yuv420p"@.len() == 7 && "yuv420p"@[0] == 'y',
        "-b:v"@.len() == 4 && "-b:v"@[0] == '-',
        "-crf"@.len() == 4 && "-crf"@[0] == '-',
        "-preset"@.len() == 7 && "-preset"@[0] == '-',
        "medium"@.len() == 6 && "medium"@[0] == 'm',
        "-c:a"@.len() == 4 && "-c:a"@[0] == '-',
        "aac"@.len() == 3 && "aac"@[0] == 'a',
        "libopus"@.len() == 7 && "libopus"@[0] == 'l',
        "pcm_s16le"@.len() == 9 && "pcm_s16le"@[0] == 'p',
        "-b:a"@.len() == 4 && "-b:a"@[0] == '-',
        "-ar"@.len() == 3 && "-ar"@[0] == '-',
        "-ac"@.len() == 3 && "-ac"@[0] == '-',
        "-f"@.len() == 2 && "-f"@[0] == '-',
        "mp4"@.len() == 3 && "mp4"@[0] == 'm',
        "matroska"@.len() == 8 && "matroska"@[0] == 'm',
        "mov"@.len() == 3 && "mov"@[0] == 'm',
        "webm"@.len() == 4 && "webm"@[0] == 'w',
        "-movflags"@.len() == 9 && "-movflags"@[0] == '-',
        "+faststart"@.len() == 10 && "+faststart"@[0] == '+',
        "-c:v"@[1] == 'c',
        "libx264"@[1] == 'i',
        "libx265"@[1] == 'i',
        "-pix_fmt"@[1] == 'p',
        "yuv420p"@[1] == 'u',
        "-b:v"@[1] == 'b',
        "-crf"@[1] == 'c',
        "-preset"@[1] == 'p',
        "medium"@[1] == 'e',
        "-c:a"@[1] == 'c',
        "aac"@[1] == 'a',
        "libopus"@[1] == 'i',
        "pcm_s16le"@[1] == 'c',
        "-b:a"@[1] == 'b',
        "-ar"@[1] == 'a',
        "-ac"@[1] == 'a',
        "-f"@[1] == 'f',
        "mp4"@[1] == 'p',
        "matroska"@[1] == 'a',
        "mov"@[1] == 'o',
        "webm"@[1] == 'e',
        "-movflags"@[1] == 'm',
        "+faststart"@[1] == 'f',
        "-c:v"@[2] == ':' && "-crf"@[2] == 'r' && "-c:a"@[2] == ':',
        "-b:a"@[3] == 'a' && "-b:v"@[3] == 'v',
{
    reveal_strlit("-c:v");
    reveal_strlit("libx264");
    reveal_strlit("libx265");
    reveal_strlit("-pix_fmt");
    reveal_strlit("yuv420p");
    reveal_strlit("-b:v");
    reveal_strlit("-crf");
    reveal_strlit("-preset");
    reveal_strlit("medium");
    reveal_strlit("-c:a");
    reveal_strlit("aac");
    reveal_strlit("libopus");
    reveal_strlit("pcm_s16le");
    reveal_strlit("-b:a");
    reveal_strlit("-ar");
    reveal_strlit("-ac");
    reveal_strlit("-f");
    reveal_strlit("mp4");
    reveal_strlit("matroska");
    reveal_strlit("mov");
    reveal_strlit("webm");
    reveal_strlit("-movflags");
    reveal_strlit("+faststart");
}

/// The text `x` occurs nowhere in `args`.
pub open spec fn lacks(args: Seq<Seq<char>>, x: Seq<char>) -> bool {
    forall|i: int| 0 <= i < args.len() ==> #[trigger] args[i] != x
}

/// For H.264 and H.265 alike, the rate control follows the requested video
/// bitrate alone: a bitrate sets that target bitrate (`-b:v` and its
/// decimal text) and no constant-quality factor; no bitrate sets constant
/// quality (`-crf` and the factor's decimal text) and no target bitrate.
pub proof fn lemma_h26x_rate_control(s: EncoderSettings)
    requires
        s.video_codec == ExportVideoCodec::H264 || s.video_codec == ExportVideoCodec::H265,
    ensures
        s.video_bitrate > 0 ==> exists|i: int|
            0 <= i && i + 1 < encoder_args_spec(s).len() && #[trigger] encoder_args_spec(s)[i]
                == "-b:v"@ && encoder_args_spec(s)[i + 1] == decimal(s.video_bitrate as nat),
        s.video_bitrate > 0 ==> lacks(encoder_args_spec(s), "-crf"@),
        s.video_bitrate == 0 ==> exists|i: int|
            0 <= i && i + 1 < encoder_args_spec(s).len() && #[trigger] encoder_args_spec(s)[i]
                == "-crf"@ && encoder_args_spec(s)[i + 1] == decimal(s.crf as nat),
        s.video_bitrate == 0 ==> lacks(encoder_args_spec(s), "-b:v"@),
{
    let a = encoder_args_spec(s);
    lemma_argument_texts();
    lemma_decimal_digits(s.video_bitrate as nat);
    lemma_decimal_digits(s.crf as nat);
    lemma_decimal_digits(s.audio_bitrate as nat);
    lemma_decimal_digits(s.audio_sample_rate as nat);
    lemma_decimal_digits(s.audio_channels as nat);
    let rate = if s.video_bitrate > 0 {
        decimal(s.video_bitrate as nat)
    } else {
        decimal(s.crf as nat)
    };
    let flag = if s.video_bitrate > 0 {
        "-b:v"@
    } else {
        "-crf"@
    };
    let other = if s.video_bitrate > 0 {
        "-crf"@
    } else {
        "-b:v"@
    };
    assert(a[4] == flag && a[5] == rate);
    let n1 = decimal(s.audio_bitrate as nat);
    let n2 = decimal(s.audio_sample_rate as nat);
    let n3 = decimal(s.audio_channels as nat);
    assert(rate[0] != other[0]);
    assert(n1[0] != other[0]);
    assert(n2[0] != other[0]);
    assert(n3[0] != other[0]);
    assert(video_encoder_name(s.video_codec) != other);
    assert(audio_encoder_name(s.audio_codec) != other);
    assert(muxer_name(s.format) != other);
    assert(flag != other);
    assert forall|i: int| 0 <= i < a.len() implies #[trigger] a[i] != other by {
        if s.audio_codec != ExportAudioCodec::PcmS16le || s.format != ExportFormat::Mkv {
            assert(a =~= seq![
                "-c:v"@, video_encoder_name(s.video_codec), "-pix_fmt"@, "yuv420p"@,
                flag, rate, "-preset"@, "medium"@,
                "-c:a"@, audio_encoder_name(s.audio_codec),
                "-b:a"@, n1, "-ar"@, n2, "-ac"@, n3,
                "-f"@, muxer_name(s.format), "-movflags"@, "+faststart"@,
            ]);
            assert(i == 0 || i == 1 || i == 2 || i == 3 || i == 4 || i == 5 || i == 6 || i == 7 || i == 8 || i == 9 || i == 10 || i == 11 || i == 12 || i == 13 || i == 14 || i == 15 || i == 16 || i == 17 || i == 18 || i == 19);
        } else {
            assert(a =~= seq![
                "-c:v"@, video_encoder_name(s.video_codec), "-pix_fmt"@, "yuv420p"@,
                flag, rate, "-preset"@, "medium"@,
                "-b:a"@, n1, "-ar"@, n2, "-ac"@, n3,
                "-f"@, muxer_name(s.format), "-movflags"@, "+faststart"@,
            ]);
            assert(i == 0 || i == 1 || i == 2 || i == 3 || i == 4 || i == 5 || i == 6 || i == 7 || i == 8 || i == 9 || i == 10 || i == 11 || i == 12 || i == 13 || i == 14 || i == 15 || i == 16 || i == 17);
        }
    }
}

/// Switching between H.264 and H.265 changes only the encoder named: every
/// other argument, the rate control included, stays as it was.
pub proof fn lemma_h264_h265_differ_only_in_encoder(s: EncoderSettings, t: EncoderSettings)
    requires
        s.video_codec == ExportVideoCodec::H264 || s.video_codec == ExportVideoCodec::H265,
        t.video_codec == ExportVideoCodec::H264 || t.video_codec == ExportVideoCodec::H265,
        t == (EncoderSettings { video_codec: t.video_codec, ..s }),
    ensures
        encoder_args_spec(s).len() == encoder_args_spec(t).len(),
        forall|i: int|
            0 <= i < encoder_args_spec(s).len() && i != 1 ==> #[trigger] encoder_args_spec(s)[i]
                == encoder_args_spec(t)[i],
{
}

/// Why an export cannot start.
#[derive(Clone, Copy, PartialEq, Eq, Debug, Structural)]
pub enum ExportPlanError {
    /// No clips to export: the timeline is empty.
    EmptyTimeline,
}

/// Decide how to export `timeline`: refused when it lasts no time at all;
/// otherwise a requested `Concat` is replaced by the strategy the
/// timeline's shape calls for, and `FramePipe` is kept.
pub fn plan_export(timeline: &Timeline, requested: ExportStrategy) -> (r: Result<
    ExportStrategy,
    ExportPlanError,
>)
    ensures
        tracks_end(timeline.tracks@) <= ZERO_KEY ==> r == Err::<ExportStrategy, ExportPlanError>(
            ExportPlanError::EmptyTimeline,
        ),
        tracks_end(timeline.tracks@) > ZERO_KEY ==> r == Ok::<ExportStrategy, ExportPlanError>(
            if requested == ExportStrategy::Concat {
                if concat_applies(timeline.tracks@) {
                    ExportStrategy::Concat
                } else {
                    ExportStrategy::FramePipe
                }
            } else {
                requested
            },
        ),
{
    let duration = timeline.duration();
    if duration.0 <= ZERO_KEY {
        return Err(ExportPlanError::EmptyTimeline);
    }
    if requested == ExportStrategy::Concat {
        Ok(pick_strategy(timeline))
    } else {
        Ok(requested)
    }
}

/// The placeholder color frame-pipe export paints a clip of asset `id`
/// with: the id's low three bytes as red, green and blue, fully opaque.
pub fn asset_color(id: Id) -> (r: [u8; 4])
    ensures
        r@ == seq![
            (id.0 & 0xff) as u8,
            ((id.0 >> 8u128) & 0xff) as u8,
            ((id.0 >> 16u128) & 0xff) as u8,
            255u8,
        ],
{
    let v = id.0;
    let red = (v & 0xff) as u8;
    let green = ((v >> 8u32) & 0xff) as u8;
    let blue = ((v >> 16u32) & 0xff) as u8;
    let out = [red, green, blue, 255u8];
    assert(out@ =~= seq![red, green, blue, 255u8]);
    out
}

} // verus!
