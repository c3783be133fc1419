use edt::id::{Id, IdGenerator};
use edt::render::{contributing_clips, video_paint_order};
use edt::time::TimeKey;
use edt::timeline::{Clip, ClipSource, Timeline, TrackKind};

fn t(x: f64) -> TimeKey {
    TimeKey::from_f64_bits(x.to_bits())
}

fn ten_second_clip(id: Id, name: &str) -> Clip {
    Clip::new(
        id,
        name,
        ClipSource { asset_id: Id(1000), source_start: t(0.0), source_end: t(10.0) },
        t(0.0),
        t(10.0),
    )
}

#[test]
fn muted_track_skipped() {
    let mut tl = Timeline::with_default_tracks(&mut IdGenerator::with_seed(4));
    tl.tracks[0].muted = true;
    tl.tracks[0].insert_clip(ten_second_clip(Id(1), "c"));
    assert!(contributing_clips(&tl, t(5.0), TrackKind::Video).is_empty());
}

#[test]
fn muted_audio_track_silenced() {
    let mut tl = Timeline::with_default_tracks(&mut IdGenerator::with_seed(5));
    tl.tracks[2].muted = true;
    tl.tracks[2].insert_clip(ten_second_clip(Id(1), "a"));
    assert!(contributing_clips(&tl, t(1.0), TrackKind::Audio).is_empty());
}

#[test]
fn contributing_clips_by_kind_in_display_order() {
    let mut tl = Timeline::with_default_tracks(&mut IdGenerator::with_seed(6));
    tl.tracks[0].insert_clip(ten_second_clip(Id(1), "v1"));
    tl.tracks[1].insert_clip(ten_second_clip(Id(2), "v2"));
    tl.tracks[2].insert_clip(ten_second_clip(Id(3), "a1"));
    let mut muted = ten_second_clip(Id(4), "a2");
    muted.muted = true;
    tl.tracks[3].insert_clip(muted);
    let video: Vec<&str> = contributing_clips(&tl, t(5.0), TrackKind::Video)
        .iter()
        .map(|(_, c)| c.name.as_str())
        .collect();
    assert_eq!(video, vec!["v1", "v2"]);
    let audio: Vec<Id> =
        contributing_clips(&tl, t(5.0), TrackKind::Audio).iter().map(|(_, c)| c.id).collect();
    assert_eq!(audio, vec![Id(3)]);
    assert!(contributing_clips(&tl, t(10.0), TrackKind::Video).is_empty());
}

#[test]
fn topmost_video_clip_is_painted_last() {
    let mut tl = Timeline::with_default_tracks(&mut IdGenerator::with_seed(14));
    tl.tracks[0].insert_clip(ten_second_clip(Id(1), "v1"));
    tl.tracks[1].insert_clip(ten_second_clip(Id(2), "v2"));
    tl.tracks[2].insert_clip(ten_second_clip(Id(3), "a1"));
    let order: Vec<Id> = video_paint_order(&tl, t(5.0)).iter().map(|(_, c)| c.id).collect();
    assert_eq!(order, vec![Id(2), Id(1)]);
}
