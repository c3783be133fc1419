use edt::id::{Id, IdGenerator};
use edt::time::{TimeKey, TimeRange};
use edt::timeline::{Clip, ClipSource, Timeline, Track, TrackKind};

fn t(x: f64) -> TimeKey {
    TimeKey::from_f64_bits(x.to_bits())
}

fn secs(k: TimeKey) -> f64 {
    f64::from_bits(k.to_f64_bits())
}

fn make_clip(start: f64, end: f64, t_start: f64) -> Clip {
    Clip::new(
        Id(1),
        "c",
        ClipSource { asset_id: Id(99), source_start: t(start), source_end: t(end) },
        t(t_start),
        t(t_start + (end - start)),
    )
}

#[test]
fn range_contains_and_intersects() {
    let r = TimeRange::new(t(0.0), t(10.0));
    assert!(r.contains(t(5.0)));
    assert!(!r.contains(t(10.0)));
    assert!(r.intersects(TimeRange::new(t(5.0), t(15.0))));
    assert!(!r.intersects(TimeRange::new(t(10.0), t(15.0))));
}

#[test]
fn keys_order_like_seconds() {
    let xs = [-1e9, -2.5, -1.0, -0.0, 0.0, 1e-300, 0.5, 1.0, 2.5, 3600.0, 1e12];
    for &a in &xs {
        for &b in &xs {
            assert_eq!(t(a).0 < t(b).0, a < b, "{a} vs {b}");
            assert_eq!(t(a) == t(b), a == b, "{a} vs {b}");
        }
        assert_eq!(secs(t(a)), if a == 0.0 { 0.0 } else { a });
    }
    assert_eq!(t(0.0), TimeKey::zero());
    assert_eq!(t(-0.0).to_f64_bits(), 0.0f64.to_bits());
}

#[test]
fn time_min_max() {
    assert_eq!(t(1.0).max(t(2.5)), t(2.5));
    assert_eq!(t(-1.0).min(t(2.5)), t(-1.0));
}

#[test]
fn clip_timeline_range() {
    let c = make_clip(0.0, 10.0, 5.0);
    let r = c.timeline_range();
    assert_eq!(secs(r.start), 5.0);
    assert_eq!(secs(r.end), 15.0);
}

#[test]
fn split_clip_keeps_total_length() {
    let mut c = make_clip(0.0, 10.0, 5.0);
    let original_dur = secs(c.timeline_end) - secs(c.timeline_start);
    // Timeline time 10.0 is 5.0 seconds into the clip, which plays at
    // normal speed from source time 0.0.
    let right = c.split(Id(2), t(10.0), t(5.0)).expect("split");
    assert_eq!(secs(c.timeline_range().end), 10.0);
    assert_eq!(secs(right.timeline_range().start), 10.0);
    assert_eq!(secs(right.timeline_range().end), 15.0);
    let total = (secs(c.timeline_end) - secs(c.timeline_start))
        + (secs(right.timeline_end) - secs(right.timeline_start));
    assert!((total - original_dur).abs() < 1e-9);
    assert_eq!(right.id, Id(2));
    assert_eq!(secs(c.source.source_end), 5.0);
    assert_eq!(secs(right.source.source_start), 5.0);
}

#[test]
fn split_outside_clip_changes_nothing() {
    let mut c = make_clip(0.0, 10.0, 5.0);
    assert!(c.split(Id(2), t(15.0), t(10.0)).is_none());
    assert!(c.split(Id(2), t(4.0), t(0.0)).is_none());
    assert_eq!(secs(c.timeline_end), 15.0);
}

#[test]
fn track_insert_keeps_sorted() {
    let mut tr = Track::new(Id(1), "v1", TrackKind::Video);
    tr.insert_clip(make_clip(0.0, 5.0, 10.0));
    tr.insert_clip(make_clip(0.0, 5.0, 0.0));
    tr.insert_clip(make_clip(0.0, 5.0, 5.0));
    let starts: Vec<f64> = tr.clips.iter().map(|c| secs(c.timeline_start)).collect();
    assert_eq!(starts, vec![0.0, 5.0, 10.0]);
}

#[test]
fn track_insert_after_equal_starts() {
    let mut tr = Track::new(Id(1), "v1", TrackKind::Video);
    let mut a = make_clip(0.0, 5.0, 3.0);
    a.id = Id(10);
    let mut b = make_clip(0.0, 5.0, 3.0);
    b.id = Id(11);
    tr.insert_clip(a);
    tr.insert_clip(b);
    assert_eq!(tr.clips[0].id, Id(10));
    assert_eq!(tr.clips[1].id, Id(11));
}

#[test]
fn track_remove_and_lookup() {
    let mut tr = Track::new(Id(1), "v1", TrackKind::Video);
    let mut a = make_clip(0.0, 5.0, 0.0);
    a.id = Id(10);
    let mut b = make_clip(0.0, 5.0, 5.0);
    b.id = Id(11);
    tr.insert_clip(a);
    tr.insert_clip(b);
    assert_eq!(tr.clip_at(t(7.0)).map(|c| c.id), Some(Id(11)));
    assert_eq!(tr.clip_at(t(5.0)).map(|c| c.id), Some(Id(11)));
    assert_eq!(tr.clip_at(t(4.9)).map(|c| c.id), Some(Id(10)));
    assert!(tr.clip_at(t(10.0)).is_none());
    assert_eq!(secs(tr.duration()), 10.0);
    assert_eq!(tr.remove_clip(Id(10)).map(|c| c.id), Some(Id(10)));
    assert!(tr.remove_clip(Id(10)).is_none());
    assert_eq!(tr.clips.len(), 1);
    let empty = Track::new(Id(2), "a1", TrackKind::Audio);
    assert_eq!(empty.duration(), TimeKey::zero());
}

#[test]
fn default_timeline_has_four_tracks() {
    let mut gen = IdGenerator::new();
    let tl = Timeline::with_default_tracks(&mut gen);
    assert_eq!(tl.tracks.len(), 4);
    assert_eq!(tl.tracks[0].name, "V1");
}

#[test]
fn duration_is_max_of_track_durations() {
    let mut gen = IdGenerator::new();
    let mut tl = Timeline::with_default_tracks(&mut gen);
    let id = gen.next();
    let asset_id = gen.next();
    let clip = Clip::new(
        id,
        "c",
        ClipSource { asset_id, source_start: t(0.0), source_end: t(5.0) },
        t(10.0),
        t(15.0),
    );
    tl.tracks[0].insert_clip(clip);
    assert_eq!(secs(tl.duration()), 15.0);
    let empty = Timeline::default();
    assert_eq!(empty.duration(), TimeKey::zero());
}

#[test]
fn active_clips_at_returns_top_to_bottom() {
    let mut gen = IdGenerator::new();
    let mut tl = Timeline::with_default_tracks(&mut gen);
    let src = |gen: &mut IdGenerator| ClipSource {
        asset_id: gen.next(),
        source_start: t(0.0),
        source_end: t(10.0),
    };
    let s1 = src(&mut gen);
    let c1 = Clip::new(gen.next(), "v1", s1, t(0.0), t(10.0));
    let s2 = src(&mut gen);
    let c2 = Clip::new(gen.next(), "v2", s2, t(0.0), t(10.0));
    tl.tracks[0].insert_clip(c1);
    tl.tracks[1].insert_clip(c2);
    let active = tl.active_clips_at(t(5.0));
    assert_eq!(active.len(), 2);
    assert_eq!(active[0].1.name, "v1");
    assert_eq!(active[1].1.name, "v2");
}

#[test]
fn tracks_top_to_bottom_puts_video_first() {
    let mut tl = Timeline::default();
    tl.add_track(Track::new(Id(1), "A1", TrackKind::Audio));
    tl.add_track(Track::new(Id(2), "V1", TrackKind::Video));
    tl.add_track(Track::new(Id(3), "A2", TrackKind::Audio));
    tl.add_track(Track::new(Id(4), "V2", TrackKind::Video));
    let names: Vec<&str> = tl.tracks_top_to_bottom().iter().map(|t| t.name.as_str()).collect();
    assert_eq!(names, vec!["V1", "V2", "A1", "A2"]);
}

#[test]
fn timeline_lookups() {
    let mut tl = Timeline::default();
    tl.add_track(Track::new(Id(1), "V1", TrackKind::Video));
    tl.add_track(Track::new(Id(2), "A1", TrackKind::Audio));
    let mut c = make_clip(0.0, 5.0, 0.0);
    c.id = Id(7);
    tl.tracks[1].insert_clip(c);
    assert_eq!(tl.track(Id(2)).map(|t| t.name.as_str()), Some("A1"));
    assert!(tl.track(Id(3)).is_none());
    assert_eq!(tl.track_of_clip(Id(7)), Some(Id(2)));
    assert_eq!(tl.track_of_clip(Id(8)), None);
    let (tr, cl) = tl.clip(Id(7)).unwrap();
    assert_eq!(tr.id, Id(2));
    assert_eq!(cl.id, Id(7));
    tl.track_mut(Id(1)).unwrap().locked = true;
    assert!(tl.tracks[0].locked);
}

#[test]
fn trim_left_preserves_right_edge() {
    let mut c = make_clip(0.0, 10.0, 5.0);
    let right_before = c.timeline_end;
    let speed = f64::from_bits(c.speed_bits);
    let new_source = secs(c.source.source_start) + (7.0 - secs(c.timeline_start)) * speed;
    c.trim_left(t(7.0), t(new_source));
    assert_eq!(secs(c.timeline_start), 7.0);
    assert_eq!(c.timeline_end, right_before);
    assert_eq!(secs(c.source.source_start), 2.0);
}

#[test]
fn trim_right_moves_only_the_end() {
    let mut c = make_clip(0.0, 10.0, 5.0);
    c.trim_right(t(12.0), t(7.0));
    assert_eq!(secs(c.timeline_start), 5.0);
    assert_eq!(secs(c.timeline_end), 12.0);
    assert_eq!(secs(c.source.source_start), 0.0);
    assert_eq!(secs(c.source.source_end), 7.0);
}
