use edt::commands::{
    AddClipCmd, Command, DeleteClipCmd, EditCommand, MoveClipCmd, SplitClipCmd, UndoStack,
};
use edt::id::{Id, IdGenerator};
use edt::time::TimeKey;
use edt::timeline::{Clip, ClipSource, Timeline};

fn t(x: f64) -> TimeKey {
    TimeKey::from_f64_bits(x.to_bits())
}

fn clip(id: Id, name: &str, start: f64, len: f64) -> Clip {
    Clip::new(
        id,
        name,
        ClipSource { asset_id: Id(500), source_start: t(0.0), source_end: t(len) },
        t(start),
        t(start + len),
    )
}

fn clip_ids(tl: &Timeline, track: Id) -> Vec<Id> {
    tl.track(track).unwrap().clips.iter().map(|c| c.id).collect()
}

#[test]
fn add_and_undo_restores_state() {
    let mut gen = IdGenerator::new();
    let mut tl = Timeline::with_default_tracks(&mut gen);
    let track_id = tl.tracks[0].id;
    tl.tracks[0].insert_clip(clip(gen.next(), "clip", 0.0, 10.0));
    let new_clip = clip(gen.next(), "clip2", 15.0, 10.0);
    let mut undo = UndoStack::default();
    let count_before = tl.track(track_id).unwrap().clips.len();
    undo.push(AddClipCmd { clip: new_clip, track_id }, &mut tl);
    let count_after = tl.track(track_id).unwrap().clips.len();
    assert_eq!(count_after, count_before + 1);
    undo.undo(&mut tl);
    let count_undo = tl.track(track_id).unwrap().clips.len();
    assert_eq!(count_undo, count_before);
}

#[test]
fn delete_undo_redo_cycle() {
    let mut tl = Timeline::with_default_tracks(&mut IdGenerator::with_seed(1));
    let track_id = tl.tracks[2].id;
    tl.tracks[2].insert_clip(clip(Id(1), "a", 0.0, 2.0));
    tl.tracks[2].insert_clip(clip(Id(2), "b", 2.0, 2.0));
    tl.tracks[2].insert_clip(clip(Id(3), "c", 4.0, 2.0));
    let mut undo: UndoStack<DeleteClipCmd> = UndoStack::default();
    assert!(!undo.can_undo());
    let victim = tl.clip(Id(2)).unwrap().1.clone();
    undo.push(DeleteClipCmd { clip: victim, track_id }, &mut tl);
    assert_eq!(clip_ids(&tl, track_id), vec![Id(1), Id(3)]);
    assert!(undo.can_undo() && !undo.can_redo());
    assert!(undo.undo(&mut tl));
    assert_eq!(clip_ids(&tl, track_id), vec![Id(1), Id(2), Id(3)]);
    assert!(!undo.undo(&mut tl));
    assert!(undo.redo(&mut tl));
    assert_eq!(clip_ids(&tl, track_id), vec![Id(1), Id(3)]);
    assert!(!undo.redo(&mut tl));
}

#[test]
fn undo_stack_drops_oldest_when_full() {
    let mut tl = Timeline::with_default_tracks(&mut IdGenerator::with_seed(2));
    let track_id = tl.tracks[0].id;
    let mut undo: UndoStack<AddClipCmd> = UndoStack::default();
    undo.max = 2;
    for i in 0..3u128 {
        undo.push(AddClipCmd { clip: clip(Id(10 + i), "x", i as f64, 1.0), track_id }, &mut tl);
    }
    assert_eq!(clip_ids(&tl, track_id), vec![Id(10), Id(11), Id(12)]);
    assert!(undo.undo(&mut tl));
    assert!(undo.undo(&mut tl));
    assert!(!undo.undo(&mut tl));
    assert_eq!(clip_ids(&tl, track_id), vec![Id(10)]);
}

#[test]
fn commands_on_missing_track_touch_nothing() {
    let mut tl = Timeline::with_default_tracks(&mut IdGenerator::with_seed(3));
    let add = AddClipCmd { clip: clip(Id(1), "x", 0.0, 1.0), track_id: Id(12345) };
    assert!(!add.apply(&mut tl));
    assert!(!add.revert(&mut tl));
    assert_eq!(add.describe(), "Add clip");
    let del = DeleteClipCmd { clip: clip(Id(1), "x", 0.0, 1.0), track_id: Id(12345) };
    assert_eq!(del.describe(), "Delete clip");
    assert!(tl.tracks.iter().all(|t| t.clips.is_empty()));
    let mv = MoveClipCmd {
        clip_id: Id(1),
        track_id: Id(12345),
        old_timeline_start: t(0.0),
        old_timeline_end: t(1.0),
        new_timeline_start: t(2.0),
        new_timeline_end: t(3.0),
    };
    assert!(!mv.apply(&mut tl));
    assert_eq!(mv.describe(), "Move clip");
}

#[test]
fn split_command_apply_and_revert() {
    let mut tl = Timeline::with_default_tracks(&mut IdGenerator::with_seed(8));
    let track_id = tl.tracks[0].id;
    let original = clip(Id(1), "a", 0.0, 10.0);
    tl.tracks[0].insert_clip(original.clone());
    tl.tracks[0].insert_clip(clip(Id(9), "z", 20.0, 1.0));
    let cmd = SplitClipCmd {
        left_id: Id(1),
        right_id: Id(2),
        track_id,
        split_time: t(4.0),
        split_source_time: t(4.0),
        original_clip: original,
    };
    assert!(cmd.apply(&mut tl));
    assert_eq!(clip_ids(&tl, track_id), vec![Id(1), Id(2), Id(9)]);
    let left = &tl.tracks[0].clips[0];
    assert_eq!((left.timeline_start, left.timeline_end), (t(0.0), t(4.0)));
    assert_eq!((left.source.source_start, left.source.source_end), (t(0.0), t(4.0)));
    let right = &tl.tracks[0].clips[1];
    assert_eq!((right.timeline_start, right.timeline_end), (t(4.0), t(10.0)));
    assert_eq!((right.source.source_start, right.source.source_end), (t(4.0), t(10.0)));
    assert!(cmd.revert(&mut tl));
    assert_eq!(clip_ids(&tl, track_id), vec![Id(1), Id(9)]);
    assert_eq!(tl.tracks[0].clips[0].timeline_end, t(10.0));
    assert_eq!(cmd.describe(), "Split clip");
}

#[test]
fn split_command_outside_clip_inserts_nothing() {
    let mut tl = Timeline::with_default_tracks(&mut IdGenerator::with_seed(9));
    let track_id = tl.tracks[0].id;
    let original = clip(Id(1), "a", 0.0, 10.0);
    tl.tracks[0].insert_clip(original.clone());
    let cmd = SplitClipCmd {
        left_id: Id(1),
        right_id: Id(2),
        track_id,
        split_time: t(12.0),
        split_source_time: t(12.0),
        original_clip: original,
    };
    assert!(cmd.apply(&mut tl));
    assert_eq!(clip_ids(&tl, track_id), vec![Id(1)]);
    assert_eq!(tl.tracks[0].clips[0].timeline_end, t(10.0));
}

#[test]
fn move_clip_command_roundtrips() {
    let mut tl = Timeline::with_default_tracks(&mut IdGenerator::with_seed(11));
    let track_id = tl.tracks[0].id;
    let clip_id = Id(1);
    tl.tracks[0].insert_clip(clip(clip_id, "clip", 0.0, 10.0));
    let old_start = tl.tracks[0].clips[0].timeline_start;
    let old_end = tl.tracks[0].clips[0].timeline_end;
    let mut undo = UndoStack::default();
    undo.push(
        EditCommand::Move(MoveClipCmd {
            clip_id,
            track_id,
            old_timeline_start: old_start,
            old_timeline_end: old_end,
            new_timeline_start: t(5.0),
            new_timeline_end: t(15.0),
        }),
        &mut tl,
    );
    assert_eq!(tl.tracks[0].clips[0].timeline_start, t(5.0));
    assert_eq!(tl.tracks[0].clips[0].timeline_end, t(15.0));
    assert!(undo.undo(&mut tl));
    assert_eq!(tl.tracks[0].clips[0].timeline_start, old_start);
    assert_eq!(tl.tracks[0].clips[0].timeline_end, t(10.0));
    assert_eq!(undo.redo(&mut tl), true);
    assert_eq!(tl.tracks[0].clips[0].timeline_start, t(5.0));
}

#[test]
fn undo_after_each_edit_restores_timeline() {
    let mut tl = Timeline::with_default_tracks(&mut IdGenerator::with_seed(12));
    let track_id = tl.tracks[1].id;
    tl.tracks[1].insert_clip(clip(Id(1), "a", 0.0, 4.0));
    tl.tracks[1].insert_clip(clip(Id(2), "b", 4.0, 4.0));
    let spans = |tl: &Timeline| -> Vec<(Id, TimeKey, TimeKey)> {
        tl.track(track_id)
            .unwrap()
            .clips
            .iter()
            .map(|c| (c.id, c.timeline_start, c.timeline_end))
            .collect()
    };
    let before = spans(&tl);
    let b = tl.clip(Id(2)).unwrap().1.clone();
    let a = tl.clip(Id(1)).unwrap().1.clone();
    let edits = vec![
        EditCommand::Add(AddClipCmd { clip: clip(Id(3), "c", 9.0, 1.0), track_id }),
        EditCommand::Delete(DeleteClipCmd { clip: b, track_id }),
        EditCommand::Move(MoveClipCmd {
            clip_id: Id(1),
            track_id,
            old_timeline_start: t(0.0),
            old_timeline_end: t(4.0),
            new_timeline_start: t(20.0),
            new_timeline_end: t(24.0),
        }),
        EditCommand::Split(SplitClipCmd {
            left_id: Id(1),
            right_id: Id(7),
            track_id,
            split_time: t(1.0),
            split_source_time: t(1.0),
            original_clip: a,
        }),
    ];
    let mut undo = UndoStack::default();
    for e in edits {
        let name = e.describe();
        undo.push(e, &mut tl);
        assert_ne!(spans(&tl), before, "{name} changed nothing");
        assert!(undo.undo(&mut tl));
        assert_eq!(spans(&tl), before, "{name} was not undone");
    }
}

#[test]
fn sorting_is_stable_by_start() {
    let mut tl = Timeline::with_default_tracks(&mut IdGenerator::with_seed(10));
    let tr = &mut tl.tracks[0];
    tr.clips.push(clip(Id(3), "c", 5.0, 1.0));
    tr.clips.push(clip(Id(1), "a", 0.0, 1.0));
    tr.clips.push(clip(Id(4), "d", 5.0, 1.0));
    tr.clips.push(clip(Id(2), "b", 2.0, 1.0));
    tr.sort_clips_by_start();
    let ids: Vec<Id> = tr.clips.iter().map(|c| c.id).collect();
    assert_eq!(ids, vec![Id(1), Id(2), Id(3), Id(4)]);
}
