use edt::editor::{
    apply_probe_result, clamp_playhead, clip_mut, next_session_id, EditorStateInner, PlayState,
    Selection,
};
use edt::id::Id;
use edt::media::{MediaAsset, MediaKind, MediaMetadata, VideoInfo};
use edt::time::TimeKey;
use edt::timeline::TrackKind;

fn t(x: f64) -> TimeKey {
    TimeKey::from_f64_bits(x.to_bits())
}

fn secs(k: TimeKey) -> f64 {
    f64::from_bits(k.to_f64_bits())
}

fn fake_asset(id: Id, name: &str, dur: f64) -> MediaAsset {
    MediaAsset {
        id,
        name: name.into(),
        path: format!("/tmp/{name}.mp4"),
        metadata: Some(MediaMetadata {
            duration: Some(t(dur)),
            video: Some(VideoInfo {
                width: 1920,
                height: 1080,
                fps_bits: 30.0f64.to_bits(),
                codec: "h264".into(),
                pixel_format: "yuv420p".into(),
            }),
            audio: None,
            bitrate: None,
            format: "mp4".into(),
        }),
        label: 0,
        offline: false,
        proxy_path: None,
    }
}

/// Place the whole asset at `start`, computing its end as the editor does.
fn place(s: &mut EditorStateInner, asset_id: Id, track_id: Id, start: f64, next_id: Id) -> Option<Id> {
    let end = match s.project.asset(asset_id) {
        Some(a) => t(start + secs(a.duration())),
        None => t(start),
    };
    s.add_clip_from_asset(asset_id, track_id, t(start), end, next_id)
}

fn next_id(s: &mut EditorStateInner) -> Id {
    next_session_id(&mut s.id_gen_seq)
}

#[test]
fn add_clip_from_asset_creates_clip() {
    let mut state = EditorStateInner::new();
    let asset_id = next_id(&mut state);
    let track_id = state.first_track_of_kind(TrackKind::Video).unwrap();
    state.add_asset(fake_asset(asset_id, "clip", 10.0));
    state.dirty = false;
    let nid = next_id(&mut state);
    let clip_id = place(&mut state, asset_id, track_id, 0.0, nid);
    assert!(clip_id.is_some());
    assert_eq!(secs(state.project.duration()), 10.0);
    assert!(state.dirty);
    let clip = &state.project.timeline.track(track_id).unwrap().clips[0];
    assert_eq!(clip.name, "clip");
    assert_eq!(clip.source.asset_id, asset_id);
    assert_eq!(clip.source.source_end, t(10.0));
}

#[test]
fn add_clip_refused_for_missing_asset_or_locked_track() {
    let mut state = EditorStateInner::new();
    let track_id = state.first_track_of_kind(TrackKind::Video).unwrap();
    state.add_asset(fake_asset(Id(1), "clip", 4.0));
    state.dirty = false;
    assert!(place(&mut state, Id(2), track_id, 0.0, Id(3)).is_none());
    assert!(place(&mut state, Id(1), Id(999), 0.0, Id(3)).is_none());
    state.project.timeline.track_mut(track_id).unwrap().locked = true;
    assert!(place(&mut state, Id(1), track_id, 0.0, Id(3)).is_none());
    assert!(!state.dirty);
    assert_eq!(secs(state.project.duration()), 0.0);
}

#[test]
fn split_at_playhead_creates_two_clips() {
    let mut state = EditorStateInner::new();
    let asset_id = next_id(&mut state);
    let track_id = state.first_track_of_kind(TrackKind::Video).unwrap();
    state.add_asset(fake_asset(asset_id, "clip", 10.0));
    let nid = next_id(&mut state);
    let clip_id = place(&mut state, asset_id, track_id, 0.0, nid).unwrap();
    state.selection = Selection::Clip(clip_id);
    state.playhead = t(5.0);
    let split_id = next_id(&mut state);
    let new_id = state.split_selected_clip_at_playhead(split_id, t(5.0));
    assert!(new_id.is_some());
    let track = state.project.timeline.track(track_id).unwrap();
    assert_eq!(track.clips.len(), 2);
    assert_eq!(track.clips[0].timeline_end, t(5.0));
    assert_eq!(track.clips[1].id, split_id);
    assert_eq!(track.clips[1].timeline_start, t(5.0));
    assert_eq!(track.clips[1].source.source_start, t(5.0));
}

#[test]
fn split_refused_outside_clip_or_when_locked() {
    let mut state = EditorStateInner::new();
    let track_id = state.first_track_of_kind(TrackKind::Video).unwrap();
    state.add_asset(fake_asset(Id(1), "clip", 10.0));
    let clip_id = place(&mut state, Id(1), track_id, 0.0, Id(2)).unwrap();
    state.dirty = false;
    state.selection = Selection::Clip(clip_id);
    state.playhead = t(12.0);
    assert!(state.split_selected_clip_at_playhead(Id(3), t(12.0)).is_none());
    state.playhead = t(5.0);
    state.selection = Selection::Nothing;
    assert!(state.split_selected_clip_at_playhead(Id(3), t(5.0)).is_none());
    state.selection = Selection::Clip(clip_id);
    state.project.timeline.track_mut(track_id).unwrap().locked = true;
    assert!(state.split_selected_clip_at_playhead(Id(3), t(5.0)).is_none());
    assert_eq!(state.project.timeline.track(track_id).unwrap().clips.len(), 1);
    assert!(!state.dirty);
}

#[test]
fn delete_selected_clip_removes_it() {
    let mut state = EditorStateInner::new();
    let asset_id = next_id(&mut state);
    let track_id = state.first_track_of_kind(TrackKind::Video).unwrap();
    state.add_asset(fake_asset(asset_id, "clip", 10.0));
    let nid = next_id(&mut state);
    let clip_id = place(&mut state, asset_id, track_id, 0.0, nid).unwrap();
    state.selection = Selection::Clip(clip_id);
    let deleted = state.delete_selected_clip();
    assert!(deleted);
    let track = state.project.timeline.track(track_id).unwrap();
    assert_eq!(track.clips.len(), 0);
    assert_eq!(state.selection, Selection::Nothing);
}

#[test]
fn delete_refused_when_locked_or_unselected() {
    let mut state = EditorStateInner::new();
    let track_id = state.first_track_of_kind(TrackKind::Video).unwrap();
    state.add_asset(fake_asset(Id(1), "clip", 10.0));
    let clip_id = place(&mut state, Id(1), track_id, 0.0, Id(2)).unwrap();
    state.dirty = false;
    state.selection = Selection::Track(track_id);
    assert!(!state.delete_selected_clip());
    assert_eq!(state.selection, Selection::Track(track_id));
    state.project.timeline.track_mut(track_id).unwrap().locked = true;
    state.selection = Selection::Clip(clip_id);
    assert!(!state.delete_selected_clip());
    assert_eq!(state.selection, Selection::Clip(clip_id));
    assert_eq!(state.project.timeline.track(track_id).unwrap().clips.len(), 1);
    assert!(!state.dirty);
}

#[test]
fn selection_lookup_and_play_state() {
    let mut state = EditorStateInner::new();
    let track_id = state.first_track_of_kind(TrackKind::Video).unwrap();
    state.add_asset(fake_asset(Id(1), "clip", 10.0));
    let clip_id = place(&mut state, Id(1), track_id, 0.0, Id(2)).unwrap();
    state.selection = Selection::Clip(clip_id);
    assert_eq!(state.selected_clip().map(|c| c.id), Some(clip_id));
    state.selected_clip_mut().unwrap().label = 3;
    assert_eq!(state.selected_clip().unwrap().label, 3);
    state.selection = Selection::Clip(Id(99));
    assert!(state.selected_clip().is_none());
    assert!(state.selected_clip_mut().is_none());
    state.selection = Selection::Nothing;
    assert!(state.selected_clip().is_none());
    assert_eq!(PlayState::Paused.toggled(), PlayState::Playing);
    assert_eq!(PlayState::Playing.toggled(), PlayState::Paused);
    assert_eq!(PlayState::default(), PlayState::Paused);
    state.toggle_play();
    assert_eq!(state.play_state, PlayState::Playing);
    assert_eq!(state.first_track_of_kind(TrackKind::Audio), Some(state.project.timeline.tracks[2].id));
}

#[test]
fn clip_properties_edit_in_place() {
    let mut state = EditorStateInner::new();
    let track_id = state.first_track_of_kind(TrackKind::Video).unwrap();
    state.add_asset(fake_asset(Id(1), "clip", 10.0));
    let clip_id = place(&mut state, Id(1), track_id, 0.0, Id(2)).unwrap();
    {
        let c = clip_mut(&mut state.project.timeline, clip_id).unwrap();
        c.muted = true;
        c.name = "renamed".into();
    }
    let c = &state.project.timeline.track(track_id).unwrap().clips[0];
    assert!(c.muted);
    assert_eq!(c.name, "renamed");
    assert!(clip_mut(&mut state.project.timeline, Id(42)).is_none());
}

#[test]
fn session_ids_count_up() {
    let mut last = 0u64;
    assert_eq!(next_session_id(&mut last), Id(1));
    assert_eq!(next_session_id(&mut last), Id(2));
    assert_eq!(last, 2);
}

#[test]
fn playhead_clamps_to_duration() {
    let mut state = EditorStateInner::new();
    let target = t(secs(state.playhead) + 100.0);
    state.nudge_playhead(target);
    assert_eq!(secs(state.playhead), 0.0);
    assert_eq!(clamp_playhead(t(-3.0), t(8.0)), t(0.0));
    assert_eq!(clamp_playhead(t(3.0), t(8.0)), t(3.0));
    assert_eq!(clamp_playhead(t(9.0), t(8.0)), t(8.0));
}

#[test]
fn advance_playhead_stops_at_end() {
    let mut state = EditorStateInner::new();
    let asset_id = next_id(&mut state);
    let track_id = state.first_track_of_kind(TrackKind::Video).unwrap();
    state.add_asset(fake_asset(asset_id, "clip", 2.0));
    let nid = next_id(&mut state);
    place(&mut state, asset_id, track_id, 0.0, nid);
    state.toggle_play();
    let next = t(secs(state.playhead) + 1.0);
    assert!(state.advance_playhead(next));
    let next = t(secs(state.playhead) + 5.0);
    assert!(!state.advance_playhead(next));
    assert_eq!(state.play_state, PlayState::Paused);
    assert_eq!(state.playhead, t(2.0));
    assert!(!state.advance_playhead(t(0.5)));
    assert_eq!(state.playhead, t(2.0));
    state.stop();
    assert_eq!(state.playhead, TimeKey::zero());
}

#[test]
fn probe_results_update_the_first_asset_with_the_path() {
    let mut assets = vec![fake_asset(Id(1), "a", 1.0), fake_asset(Id(2), "b", 1.0)];
    assets[1].metadata = None;
    let mut dup = fake_asset(Id(3), "b", 1.0);
    dup.metadata = None;
    assets.push(dup);
    let meta = MediaMetadata {
        duration: Some(t(7.0)),
        video: None,
        audio: None,
        bitrate: Some(1),
        format: "wav".into(),
    };
    apply_probe_result(&mut assets, &"/tmp/b.mp4".to_string(), Some(meta));
    assert_eq!(assets[1].duration(), t(7.0));
    assert_eq!(assets[1].kind(), MediaKind::Unknown);
    assert!(assets[2].metadata.is_none());
    apply_probe_result(&mut assets, &"/tmp/a.mp4".to_string(), None);
    assert!(assets[0].offline);
    assert!(!assets[1].offline);
    apply_probe_result(&mut assets, &"/nowhere".to_string(), None);
    assert!(!assets[2].offline);
}

#[test]
fn new_session_tracks_are_open_for_edits() {
    let state = EditorStateInner::new();
    for track in &state.project.timeline.tracks {
        assert!(!track.locked && !track.muted && !track.solo);
        assert_eq!(track.level_bits, 1.0f32.to_bits());
    }
}

#[test]
fn installing_a_project_counts_past_its_ids() {
    let mut donor = EditorStateInner::new();
    let track_id = donor.first_track_of_kind(TrackKind::Video).unwrap();
    donor.add_asset(fake_asset(Id(40), "clip", 2.0));
    assert!(place(&mut donor, Id(40), track_id, 0.0, Id(57)).is_some());
    let project = donor.project.clone();

    let mut state = EditorStateInner::new();
    state.selection = Selection::Clip(Id(3));
    state.playhead = t(7.0);
    state.dirty = true;
    state.last_error = Some("old".into());
    state.install_project(project);
    assert_eq!(state.selection, Selection::Nothing);
    assert_eq!(state.playhead, TimeKey::zero());
    assert!(!state.dirty);
    assert!(state.last_error.is_none());
    assert_eq!(state.id_gen_seq, 57);
    assert_eq!(next_id(&mut state), Id(58));
    assert!(state.project.asset(Id(40)).is_some());
}

#[test]
fn probe_result_finds_asset_by_path_components() {
    let mut assets = vec![fake_asset(Id(1), "a", 1.0), fake_asset(Id(2), "b", 1.0)];
    assets[1].metadata = None;
    apply_probe_result(&mut assets, &"/tmp//./b.mp4".to_string(), None);
    assert!(!assets[0].offline);
    assert!(assets[1].offline);
}
