use edt::export::{
    decimal_string, encoder_args, pick_strategy, EncoderSettings, ExportAudioCodec, ExportFormat,
    ExportSettings, ExportStrategy, ExportVideoCodec,
};
use edt::id::IdGenerator;
use edt::media::MediaKind;
use edt::time::TimeKey;
use edt::timeline::{Clip, ClipSource, Timeline};

fn t(x: f64) -> TimeKey {
    TimeKey::from_f64_bits(x.to_bits())
}

#[test]
fn codec_to_ffmpeg_mapping() {
    assert_eq!(ExportVideoCodec::H264.ffmpeg_encoder(), "libx264");
    assert_eq!(ExportVideoCodec::H265.ffmpeg_encoder(), "libx265");
    assert_eq!(ExportAudioCodec::Aac.ffmpeg_encoder(), "aac");
}

#[test]
fn format_names() {
    assert_eq!(ExportFormat::Mkv.extension(), "mkv");
    assert_eq!(ExportFormat::Mkv.ffmpeg_muxer(), "matroska");
    assert_eq!(ExportFormat::Webm.ffmpeg_muxer(), "webm");
    assert_eq!(ExportVideoCodec::Prores.pix_fmt(), "yuv422p10le");
    assert_eq!(ExportVideoCodec::Vp9.pix_fmt(), "yuv420p");
    assert_eq!(ExportAudioCodec::PcmS16le.ffmpeg_encoder(), "pcm_s16le");
}

#[test]
fn media_kind_compiles() {
    let _ = MediaKind::Video;
}

fn clip(gen: &mut IdGenerator, asset: edt::id::Id, s0: f64, s1: f64, start: f64) -> Clip {
    let id = gen.next();
    Clip::new(
        id,
        "c",
        ClipSource { asset_id: asset, source_start: t(s0), source_end: t(s1) },
        t(start),
        t(start + (s1 - s0)),
    )
}

#[test]
fn pick_strategy_returns_concat_for_single_track_single_asset() {
    let mut gen = IdGenerator::new();
    let mut tl = Timeline::with_default_tracks(&mut gen);
    let asset_id = gen.next();
    let c1 = clip(&mut gen, asset_id, 0.0, 2.0, 0.0);
    let c2 = clip(&mut gen, asset_id, 2.0, 4.0, 2.0);
    tl.tracks[0].insert_clip(c1);
    tl.tracks[0].insert_clip(c2);
    assert_eq!(pick_strategy(&tl), ExportStrategy::Concat);
}

#[test]
fn pick_strategy_returns_frame_pipe_for_multi_track() {
    let mut gen = IdGenerator::new();
    let mut tl = Timeline::with_default_tracks(&mut gen);
    let asset_id = gen.next();
    let c = clip(&mut gen, asset_id, 0.0, 2.0, 0.0);
    tl.tracks[0].insert_clip(c);
    let other = gen.next();
    let c2 = clip(&mut gen, other, 0.0, 2.0, 0.0);
    tl.tracks[1].insert_clip(c2);
    assert_eq!(pick_strategy(&tl), ExportStrategy::FramePipe);
}

#[test]
fn pick_strategy_frame_pipe_for_mixed_assets_and_empty() {
    let mut gen = IdGenerator::new();
    let mut tl = Timeline::with_default_tracks(&mut gen);
    assert_eq!(pick_strategy(&tl), ExportStrategy::FramePipe);
    let a = gen.next();
    let b = gen.next();
    let c1 = clip(&mut gen, a, 0.0, 2.0, 0.0);
    let c2 = clip(&mut gen, b, 0.0, 2.0, 2.0);
    tl.tracks[2].insert_clip(c1);
    tl.tracks[2].insert_clip(c2);
    assert_eq!(pick_strategy(&tl), ExportStrategy::FramePipe);
}

#[test]
fn decimal_text() {
    assert_eq!(decimal_string(0), "0");
    assert_eq!(decimal_string(7), "7");
    assert_eq!(decimal_string(192_000), "192000");
    assert_eq!(decimal_string(u64::MAX), "18446744073709551615");
}

fn settings() -> EncoderSettings {
    EncoderSettings {
        format: ExportFormat::Mp4,
        video_codec: ExportVideoCodec::H264,
        audio_codec: ExportAudioCodec::Aac,
        video_bitrate: 0,
        crf: 20,
        audio_bitrate: 192_000,
        audio_sample_rate: 48_000,
        audio_channels: 2,
    }
}

#[test]
fn encoder_args_for_default_h264() {
    let args = encoder_args(&settings());
    let expected = [
        "-c:v", "libx264", "-pix_fmt", "yuv420p", "-crf", "20", "-preset", "medium", "-c:a",
        "aac", "-b:a", "192000", "-ar", "48000", "-ac", "2", "-f", "mp4", "-movflags",
        "+faststart",
    ];
    assert_eq!(args, expected.iter().map(|s| s.to_string()).collect::<Vec<_>>());
}

#[test]
fn encoder_args_bitrate_and_codecs() {
    let mut s = settings();
    s.video_bitrate = 8_000_000;
    let args = encoder_args(&s);
    assert_eq!(&args[4..8], &["-b:v", "8000000", "-preset", "medium"]);

    s.video_codec = ExportVideoCodec::Av1;
    let args = encoder_args(&s);
    assert_eq!(
        &args[..10],
        &["-c:v", "libsvtav1", "-pix_fmt", "yuv420p", "-crf", "20", "-preset", "8", "-svtav1-params", "tile-columns=2"]
    );

    s.video_codec = ExportVideoCodec::Vp9;
    let args = encoder_args(&s);
    assert_eq!(&args[4..8], &["-crf", "20", "-b:v", "0"]);

    s.video_codec = ExportVideoCodec::Prores;
    s.format = ExportFormat::Mkv;
    s.audio_codec = ExportAudioCodec::PcmS16le;
    let args = encoder_args(&s);
    assert_eq!(
        args,
        [
            "-c:v", "prores_ks", "-pix_fmt", "yuv422p10le", "-profile:v", "2", "-b:a", "192000",
            "-ar", "48000", "-ac", "2", "-f", "matroska", "-movflags", "+faststart"
        ]
        .iter()
        .map(|s| s.to_string())
        .collect::<Vec<_>>()
    );
}

#[test]
fn preset_defaults_are_sane() {
    let p = ExportSettings::default();
    assert_eq!(p.width, 1920);
    assert_eq!(p.height, 1080);
    assert_eq!(p.format, ExportFormat::Mp4);
}

#[test]
fn presets_and_encoder_settings() {
    let hd = ExportSettings::preset_1080p_h264();
    assert_eq!(hd, ExportSettings::default());
    assert_eq!(f64::from_bits(hd.fps_bits), 30.0);
    let uhd = ExportSettings::preset_4k_h265();
    assert_eq!((uhd.width, uhd.height, uhd.crf), (3840, 2160, 22));
    assert_eq!(uhd.video_codec, ExportVideoCodec::H265);
    assert_eq!(uhd.audio_bitrate, 192_000);
    let web = ExportSettings::preset_720p_h264();
    assert_eq!((web.width, web.height, web.crf), (1280, 720, 23));
    assert_eq!(web.video_codec, ExportVideoCodec::H264);
    let enc = uhd.encoder_settings();
    assert_eq!(enc.video_codec, ExportVideoCodec::H265);
    assert_eq!(enc.crf, 22);
    assert_eq!(enc.audio_sample_rate, 48_000);
}
