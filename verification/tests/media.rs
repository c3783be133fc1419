use edt::media::{AudioInfo, MediaKind, THUMB_W};

#[test]
fn thumb_width_constant() {
    assert_eq!(THUMB_W, 240);
}

#[test]
fn media_kind_from_streams() {
    assert_eq!(MediaKind::from_streams(true, true, true), MediaKind::Video);
    assert_eq!(MediaKind::from_streams(true, false, false), MediaKind::Image);
    assert_eq!(MediaKind::from_streams(false, true, false), MediaKind::Audio);
    assert_eq!(MediaKind::from_streams(false, true, true), MediaKind::Audio);
    assert_eq!(MediaKind::from_streams(false, false, true), MediaKind::Unknown);
    assert_eq!(MediaKind::from_streams(false, false, false), MediaKind::Unknown);
}

#[test]
fn media_kind_predicates() {
    assert!(MediaKind::Video.is_video());
    assert!(!MediaKind::Image.is_video());
    assert!(MediaKind::Audio.is_audio());
    assert!(!MediaKind::Video.is_audio());
}

#[test]
fn audio_info_default_is_empty() {
    let a = AudioInfo::default();
    assert_eq!(a.sample_rate, 0);
    assert_eq!(a.channels, 0);
    assert!(a.codec.is_empty());
}

use edt::id::Id;
use edt::media::{MediaAsset, MediaMetadata, VideoInfo};
use edt::time::TimeKey;
use edt::timeline::ClipSource;

fn t(x: f64) -> TimeKey {
    TimeKey::from_f64_bits(x.to_bits())
}

fn fake_video_asset() -> MediaAsset {
    MediaAsset {
        id: Id(1),
        name: "clip.mp4".into(),
        path: "/tmp/clip.mp4".into(),
        metadata: Some(MediaMetadata {
            duration: Some(t(10.0)),
            video: Some(VideoInfo {
                width: 1920,
                height: 1080,
                fps_bits: 25.0f64.to_bits(),
                codec: "h264".into(),
                pixel_format: "yuv420p".into(),
            }),
            audio: Some(AudioInfo { sample_rate: 48000, channels: 2, codec: "aac".into() }),
            bitrate: Some(5_000_000),
            format: "mov,mp4,m4a,3gp,3g2,mj2".into(),
        }),
        label: 0,
        offline: false,
        proxy_path: None,
    }
}

#[test]
fn asset_kind_is_video() {
    assert_eq!(fake_video_asset().kind(), MediaKind::Video);
}

#[test]
fn asset_duration_uses_metadata() {
    assert_eq!(f64::from_bits(fake_video_asset().duration().to_f64_bits()), 10.0);
}

#[test]
fn image_asset_has_zero_duration() {
    let mut a = fake_video_asset();
    a.metadata.as_mut().unwrap().duration = None;
    a.metadata.as_mut().unwrap().audio = None;
    assert_eq!(a.kind(), MediaKind::Image);
    assert_eq!(a.duration(), TimeKey::zero());
}

#[test]
fn asset_accessors() {
    let mut a = fake_video_asset();
    assert_eq!(a.video_info().unwrap().width, 1920);
    assert_eq!(a.audio_info().unwrap().channels, 2);
    assert_eq!(a.editing_path(), "/tmp/clip.mp4");
    a.proxy_path = Some("/tmp/proxy.mp4".into());
    assert_eq!(a.editing_path(), "/tmp/proxy.mp4");
    let src = ClipSource::from_asset(&a);
    assert_eq!(src.asset_id, Id(1));
    assert_eq!(src.source_start, TimeKey::zero());
    assert_eq!(src.source_end, t(10.0));
    a.metadata = None;
    assert_eq!(a.kind(), MediaKind::Unknown);
    assert_eq!(a.duration(), TimeKey::zero());
    assert!(a.video_info().is_none());
}

#[test]
fn media_kinds_map_to_track_kinds() {
    assert_eq!(MediaKind::Video.cast_to_track_kind(), edt::timeline::TrackKind::Video);
    assert_eq!(MediaKind::Image.cast_to_track_kind(), edt::timeline::TrackKind::Video);
    assert_eq!(MediaKind::Audio.cast_to_track_kind(), edt::timeline::TrackKind::Audio);
    assert_eq!(MediaKind::Unknown.cast_to_track_kind(), edt::timeline::TrackKind::Audio);
}
