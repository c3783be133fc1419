use edt::media::MediaKind;
use edt::probe::{summarize_probe, ProbeFormat, ProbeOutput, ProbeStream, ProbeSummary};

fn stream(codec_type: &str) -> ProbeStream {
    ProbeStream {
        codec_type: codec_type.into(),
        codec_name: None,
        width: None,
        height: None,
        pix_fmt: None,
        sample_rate: None,
        channels: None,
        avg_frame_rate: None,
        r_frame_rate: None,
    }
}

fn kind_of(s: &ProbeSummary) -> MediaKind {
    let has_duration = s.duration.as_deref().and_then(|d| d.parse::<f64>().ok()).is_some();
    MediaKind::from_streams(s.video.is_some(), s.audio.is_some(), has_duration)
}

#[test]
fn empty_input_yields_unknown_kind() {
    let s = summarize_probe(&ProbeOutput { format: None, streams: Some(vec![]) });
    assert_eq!(kind_of(&s), MediaKind::Unknown);
    assert!(s.video.is_none() && s.audio.is_none());
    assert_eq!(s.format, "");
    assert_eq!(s.bitrate, None);
}

#[test]
fn video_stream_classifies_as_video() {
    let mut v = stream("video");
    v.codec_name = Some("h264".into());
    v.width = Some(1920);
    v.height = Some(1080);
    v.pix_fmt = Some("yuv420p".into());
    v.avg_frame_rate = Some("30/1".into());
    v.r_frame_rate = Some("30/1".into());
    let s = summarize_probe(&ProbeOutput {
        format: Some(ProbeFormat {
            duration: Some("10.0".into()),
            bit_rate: None,
            format_name: Some("mp4".into()),
        }),
        streams: Some(vec![v]),
    });
    assert_eq!(kind_of(&s), MediaKind::Video);
    let v = s.video.expect("video info");
    assert_eq!(v.width, 1920);
    assert_eq!(v.height, 1080);
    assert_eq!(v.codec, "h264");
    assert_eq!(v.pixel_format, "yuv420p");
    assert_eq!(v.avg_frame_rate.as_deref(), Some("30/1"));
    assert_eq!(s.format, "mp4");
}

#[test]
fn audio_only_classifies_as_audio() {
    let mut a = stream("audio");
    a.codec_name = Some("aac".into());
    a.sample_rate = Some(48000);
    a.channels = Some(2);
    let s = summarize_probe(&ProbeOutput { format: None, streams: Some(vec![a]) });
    assert_eq!(kind_of(&s), MediaKind::Audio);
    let a = s.audio.expect("audio info");
    assert_eq!(a.sample_rate, 48000);
    assert_eq!(a.channels, 2);
    assert_eq!(a.codec, "aac");
}

#[test]
fn first_stream_of_each_type_wins() {
    let mut v1 = stream("video");
    v1.width = Some(640);
    let mut v2 = stream("video");
    v2.width = Some(1280);
    let sub = stream("subtitle");
    let mut a1 = stream("audio");
    a1.channels = Some(6);
    let mut a2 = stream("audio");
    a2.channels = Some(1);
    let s = summarize_probe(&ProbeOutput {
        format: Some(ProbeFormat {
            duration: None,
            bit_rate: Some("128000".into()),
            format_name: None,
        }),
        streams: Some(vec![sub, a1, v1, a2, v2]),
    });
    assert_eq!(kind_of(&s), MediaKind::Image);
    let v = s.video.as_ref().unwrap();
    assert_eq!(v.width, 640);
    assert_eq!(v.height, 0);
    assert_eq!(v.codec, "");
    assert_eq!(s.audio.as_ref().unwrap().channels, 6);
    assert_eq!(s.bitrate, Some(128000));
    assert_eq!(s.format, "");
}

#[test]
fn bitrate_reads_like_an_unsigned_number() {
    let with_rate = |t: &str| {
        summarize_probe(&ProbeOutput {
            format: Some(ProbeFormat { duration: None, bit_rate: Some(t.into()), format_name: None }),
            streams: None,
        })
        .bitrate
    };
    assert_eq!(with_rate("+42"), Some(42));
    assert_eq!(with_rate("18446744073709551615"), Some(u64::MAX));
    assert_eq!(with_rate("18446744073709551616"), None);
    assert_eq!(with_rate("N/A"), None);
    assert_eq!(with_rate(""), None);
    assert_eq!(with_rate("-1"), None);
}
