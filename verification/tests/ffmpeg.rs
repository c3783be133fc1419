use edt::export::{EncoderSettings, ExportAudioCodec, ExportFormat, ExportVideoCodec};
use edt::ffmpeg::{
    concat_command, concat_filter, frame_extract_args, frame_pipe_command, locate_paths,
    probe_args, FfmpegError,
};
use edt::timeline::TrackKind;

fn h264() -> EncoderSettings {
    EncoderSettings {
        format: ExportFormat::Mp4,
        video_codec: ExportVideoCodec::H264,
        audio_codec: ExportAudioCodec::Aac,
        video_bitrate: 0,
        crf: 20,
        audio_bitrate: 192_000,
        audio_sample_rate: 48_000,
        audio_channels: 2,
    }
}

#[test]
fn locate_paths_reports_first_missing_program() {
    let ok = locate_paths(Some("/usr/bin/ffmpeg".to_string()), Some("/usr/bin/ffprobe".to_string()))
        .unwrap();
    assert_eq!(ok.ffmpeg, "/usr/bin/ffmpeg");
    assert_eq!(ok.ffprobe, "/usr/bin/ffprobe");
    assert!(matches!(locate_paths(None, Some("p".to_string())), Err(FfmpegError::FfmpegNotFound)));
    assert!(matches!(locate_paths(None, None), Err(FfmpegError::FfmpegNotFound)));
    assert!(matches!(
        locate_paths(Some("f".to_string()), None),
        Err(FfmpegError::FfprobeNotFound)
    ));
}

#[test]
fn probe_command_line() {
    assert_eq!(
        probe_args("/m/a.mp4"),
        vec!["-v", "error", "-print_format", "json", "-show_format", "-show_streams", "/m/a.mp4"]
    );
}

#[test]
fn frame_extract_command_line() {
    assert_eq!(
        frame_extract_args("1.500", "/m/a.mp4", Some(240)),
        vec![
            "-y", "-loglevel", "error", "-ss", "1.500", "-i", "/m/a.mp4", "-frames:v", "1", "-vf",
            "scale=240:-1,format=rgba", "-f", "image2pipe", "-vcodec", "png", "-"
        ]
    );
    let full = frame_extract_args("0.000", "x.mov", None);
    assert_eq!(full[10], "scale=iw:ih,format=rgba");
}

#[test]
fn concat_filter_graph() {
    assert_eq!(
        concat_filter(1, TrackKind::Video, 1920, 1080, "30", ExportVideoCodec::H264),
        "scale=1920:1080:force_original_aspect_ratio=decrease,pad=1920:1080:(ow-iw)/2:(oh-ih)/2,fps=30,format=yuv420p"
    );
    assert_eq!(
        concat_filter(3, TrackKind::Audio, 640, 360, "25", ExportVideoCodec::Prores),
        "concat=n=3:v=1:a=1 scale=640:360:force_original_aspect_ratio=decrease,pad=640:360:(ow-iw)/2:(oh-ih)/2,fps=25,format=yuv422p10le"
    );
    assert!(concat_filter(2, TrackKind::Video, 1, 1, "24", ExportVideoCodec::H264)
        .starts_with("concat=n=2:v=1:a=0 scale=1:1"));
}

#[test]
fn concat_command_line() {
    let seeks = vec![
        ("0.000".to_string(), "2.000".to_string()),
        ("5.000".to_string(), "1.250".to_string()),
    ];
    let args = concat_command(&seeks, "/m/a.mp4", TrackKind::Video, 1280, 720, "30", &h264(), "/o.mp4");
    let head: Vec<&str> = args.iter().take(15).map(|s| s.as_str()).collect();
    assert_eq!(
        head,
        vec![
            "-y", "-loglevel", "error", "-ss", "0.000", "-t", "2.000", "-i", "/m/a.mp4", "-ss",
            "5.000", "-t", "1.250", "-i", "/m/a.mp4"
        ]
    );
    assert_eq!(args[15], "-filter_complex");
    assert!(args[16].starts_with("concat=n=2:v=1:a=0 scale=1280:720"));
    assert_eq!(&args[17..19], &["-map".to_string(), "[0:v]".to_string()]);
    assert_eq!(args[19], "-c:v");
    assert_eq!(args.last().unwrap(), "/o.mp4");

    let one = vec![("1.000".to_string(), "3.000".to_string())];
    let args = concat_command(&one, "a.wav", TrackKind::Audio, 2, 2, "30", &h264(), "o.mp4");
    assert!(!args.iter().any(|a| a == "-map"));
}

#[test]
fn frame_pipe_command_line() {
    let args = frame_pipe_command(1920, 1080, "29.97", &h264(), "/o.mp4");
    let head: Vec<&str> = args.iter().take(13).map(|s| s.as_str()).collect();
    assert_eq!(
        head,
        vec![
            "-y", "-loglevel", "error", "-f", "rawvideo", "-pix_fmt", "rgba", "-s", "1920x1080",
            "-r", "29.97", "-i", "-"
        ]
    );
    assert_eq!(args[13], "-c:v");
    assert_eq!(args[14], "libx264");
    assert_eq!(args.last().unwrap(), "/o.mp4");
}
