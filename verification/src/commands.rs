//! Undo/redo history and the clip edits it records.

use crate::id::Id;
use crate::time::TimeKey;
use crate::timeline::{
    covers, has_clip_id, has_track, index_of_clip, insert_position, is_first_track_view, left_part,
    right_part,
    lemma_first_track_view_exists, lemma_index_of_clip_is, lemma_insert_position_exists,
    lemma_sort_orders, lemma_track_position_is, sorted_by_insertion, sorted_by_start,
    track_position, with_clip_added, with_clip_removed, Clip, Timeline, TimelineView, TrackView,
};
use vstd::prelude::*;

verus! {

/// A reversible edit of the timeline.
pub trait Command {
    /// The timeline that applying the edit to `v` gives.
    spec fn applied(&self, v: TimelineView) -> TimelineView;

    /// The timeline that undoing the edit on `v` gives.
    spec fn reverted(&self, v: TimelineView) -> TimelineView;

    /// Perform the edit; returns whether the timeline was touched.
    fn apply(&self, timeline: &mut Timeline) -> (r: bool)
        ensures
            final(timeline)@ == self.applied(old(timeline)@),
    ;

    /// Undo the edit; returns whether the timeline was touched.
    fn revert(&self, timeline: &mut Timeline) -> (r: bool)
        ensures
            final(timeline)@ == self.reverted(old(timeline)@),
    ;

    /// Short human-readable name of the edit.
    fn describe(&self) -> &'static str;
}

/// Adding a clip to a track.
#[derive(Debug)]
pub struct AddClipCmd {
    pub clip: Clip,
    pub track_id: Id,
}

/// Deleting a clip from a track.
#[derive(Debug)]
pub struct DeleteClipCmd {
    pub clip: Clip,
    pub track_id: Id,
}

impl Command for AddClipCmd {
    open spec fn applied(&self, v: TimelineView) -> TimelineView {
        with_clip_added(v, self.track_id, self.clip)
    }

    open spec fn reverted(&self, v: TimelineView) -> TimelineView {
        with_clip_removed(v, self.track_id, self.clip.id)
    }

    /// Insert the clip into its track.
    fn apply(&self, timeline: &mut Timeline) -> (r: bool)
        ensures
            r == has_track(old(timeline)@.tracks, self.track_id),
    {
        timeline.add_clip_to_track(self.track_id, self.clip.clone())
    }

    /// Remove the clip from its track again.
    fn revert(&self, timeline: &mut Timeline) -> (r: bool)
        ensures
            r == has_track(old(timeline)@.tracks, self.track_id),
    {
        timeline.remove_clip_from_track(self.track_id, self.clip.id)
    }

    fn describe(&self) -> (r: &'static str)
        ensures
            r@ == "Add clip"@,
    {
        "Add clip"
    }
}

impl Command for DeleteClipCmd {
    open spec fn applied(&self, v: TimelineView) -> TimelineView {
        with_clip_removed(v, self.track_id, self.clip.id)
    }

    open spec fn reverted(&self, v: TimelineView) -> TimelineView {
        with_clip_added(v, self.track_id, self.clip)
    }

    /// Remove the clip from its track.
    fn apply(&self, timeline: &mut Timeline) -> (r: bool)
        ensures
            r == has_track(old(timeline)@.tracks, self.track_id),
    {
        timeline.remove_clip_from_track(self.track_id, self.clip.id)
    }

    /// Put the clip back into its track.
    fn revert(&self, timeline: &mut Timeline) -> (r: bool)
        ensures
            r == has_track(old(timeline)@.tracks, self.track_id),
    {
        timeline.add_clip_to_track(self.track_id, self.clip.clone())
    }

    fn describe(&self) -> (r: &'static str)
        ensures
            r@ == "Delete clip"@,
    {
        "Delete clip"
    }
}

/// The timeline with the clips of the first track with id `track_id`
/// replaced by `clips`.
pub open spec fn with_track_clips(v: TimelineView, track_id: Id, clips: Seq<Clip>) -> TimelineView {
    let i = track_position(v.tracks, track_id);
    TimelineView { tracks: v.tracks.update(i, TrackView { clips, ..v.tracks[i] }), ..v }
}

/// The clips of the first track with id `track_id`.
pub open spec fn clips_of(v: TimelineView, track_id: Id) -> Seq<Clip> {
    v.tracks[track_position(v.tracks, track_id)].clips
}

/// Whether the first track with id `track_id` exists and holds a clip
/// with id `clip_id`.
pub open spec fn holds_clip(v: TimelineView, track_id: Id, clip_id: Id) -> bool {
    has_track(v.tracks, track_id) && has_clip_id(clips_of(v, track_id), clip_id)
}

/// Moving a clip along its track.
///
/// The command carries the clip's span before and after the move: the
/// caller computes the new end from the new start and the clip's length
/// when it makes the command, so applying and undoing only set the span.
#[derive(Clone, Copy, Debug)]
pub struct MoveClipCmd {
    pub clip_id: Id,
    pub track_id: Id,
    pub old_timeline_start: TimeKey,
    pub old_timeline_end: TimeKey,
    pub new_timeline_start: TimeKey,
    pub new_timeline_end: TimeKey,
}

/// The timeline after the first clip with id `clip_id` in the first track
/// with id `track_id` is placed at `[start, end)`; unchanged when there is
/// no such track or clip.
pub open spec fn with_clip_moved(
    v: TimelineView,
    track_id: Id,
    clip_id: Id,
    start: TimeKey,
    end: TimeKey,
) -> TimelineView {
    if holds_clip(v, track_id, clip_id) {
        let clips = clips_of(v, track_id);
        let p = index_of_clip(clips, clip_id);
        with_track_clips(
            v,
            track_id,
            clips.update(p, Clip { timeline_start: start, timeline_end: end, ..clips[p] }),
        )
    } else {
        v
    }
}

impl MoveClipCmd {
    /// Place the clip at `[start, end)`; returns whether it was found.
    fn move_to(&self, timeline: &mut Timeline, start: TimeKey, end: TimeKey) -> (r: bool)
        ensures
            final(timeline)@ == with_clip_moved(
                old(timeline)@,
                self.track_id,
                self.clip_id,
                start,
                end,
            ),
            r == holds_clip(old(timeline)@, self.track_id, self.clip_id),
    {
        let ghost old_tl = *timeline;
        let track = match timeline.track_mut(self.track_id) {
            Some(t) => t,
            None => {
                proof {
                    crate::timeline::lemma_no_track_view(old_tl, self.track_id);
                }
                return false;
            },
        };
        let ghost k = choose|k: int|
            crate::timeline::is_first_track(old_tl.tracks@, self.track_id, k) && *track
                == old_tl.tracks@[k];
        proof {
            crate::timeline::lemma_first_track_view(old_tl, self.track_id, k);
        }
        let pos = match track.clip_index(self.clip_id) {
            Some(p) => p,
            None => {
                proof {
                    let k2 = choose|k2: int|
                        crate::timeline::is_first_track(old_tl.tracks@, self.track_id, k2)
                            && final(timeline).tracks@ == old_tl.tracks@.update(k2, *final(track));
                    crate::timeline::lemma_first_track_view(old_tl, self.track_id, k2);
                    assert(final(track)@ == old_tl.tracks@[k2]@);
                    assert(final(timeline)@.tracks =~= old_tl@.tracks);
                }
                return false;
            },
        };
        track.clips[pos].set_span(start, end);
        proof {
            let k2 = choose|k2: int|
                crate::timeline::is_first_track(old_tl.tracks@, self.track_id, k2)
                    && final(timeline).tracks@ == old_tl.tracks@.update(k2, *final(track));
            crate::timeline::lemma_first_track_view(old_tl, self.track_id, k2);
            assert(final(timeline)@.tracks =~= with_clip_moved(
                old_tl@,
                self.track_id,
                self.clip_id,
                start,
                end,
            ).tracks);
        }
        true
    }
}

impl Command for MoveClipCmd {
    open spec fn applied(&self, v: TimelineView) -> TimelineView {
        with_clip_moved(v, self.track_id, self.clip_id, self.new_timeline_start, self.new_timeline_end)
    }

    open spec fn reverted(&self, v: TimelineView) -> TimelineView {
        with_clip_moved(v, self.track_id, self.clip_id, self.old_timeline_start, self.old_timeline_end)
    }

    /// Place the clip at its new span.
    fn apply(&self, timeline: &mut Timeline) -> (r: bool)
        ensures
            r == holds_clip(old(timeline)@, self.track_id, self.clip_id),
    {
        self.move_to(timeline, self.new_timeline_start, self.new_timeline_end)
    }

    /// Put the clip back at its old span.
    fn revert(&self, timeline: &mut Timeline) -> (r: bool)
        ensures
            r == holds_clip(old(timeline)@, self.track_id, self.clip_id),
    {
        self.move_to(timeline, self.old_timeline_start, self.old_timeline_end)
    }

    fn describe(&self) -> (r: &'static str)
        ensures
            r@ == "Move clip"@,
    {
        "Move clip"
    }
}

/// Splitting a clip in two at a point in time.
///
/// `split_source_time` is the source time the original clip maps
/// `split_time` to. Applying cuts the left clip there: it keeps the part
/// before the split time, and the part after it, whose source starts at
/// `split_source_time`, joins the track under the right id.
#[derive(Debug)]
pub struct SplitClipCmd {
    pub left_id: Id,
    pub right_id: Id,
    pub track_id: Id,
    pub split_time: TimeKey,
    pub split_source_time: TimeKey,
    pub original_clip: Clip,
}

/// Whether applying `c` finds its track and its left clip.
pub open spec fn split_applies(v: TimelineView, c: SplitClipCmd) -> bool {
    holds_clip(v, c.track_id, c.left_id)
}

/// The timeline after applying `c`: when the left clip covers the split
/// time, it becomes its left part and its right part, under the right id,
/// is inserted in order of start time. Unchanged otherwise, and when the
/// track or the left clip is missing.
pub open spec fn with_split_applied(v: TimelineView, c: SplitClipCmd) -> TimelineView {
    if split_applies(v, c) && covers(
        clips_of(v, c.track_id)[index_of_clip(clips_of(v, c.track_id), c.left_id)],
        c.split_time,
    ) {
        let clips = clips_of(v, c.track_id);
        let p = index_of_clip(clips, c.left_id);
        let cur = clips[p];
        let kept = clips.update(p, left_part(cur, c.split_time, c.split_source_time));
        let right = right_part(cur, c.right_id, c.split_time, c.split_source_time);
        with_track_clips(v, c.track_id, kept.insert(insert_position(kept, c.split_time), right))
    } else {
        v
    }
}

/// The timeline after reverting `c`: in its track the first clip with the
/// right id is removed, the first clip with the left id is replaced by the
/// original clip, and the clips are sorted by start time. Unchanged when
/// the track is missing.
pub open spec fn with_split_reverted(v: TimelineView, c: SplitClipCmd) -> TimelineView {
    if has_track(v.tracks, c.track_id) {
        let clips = clips_of(v, c.track_id);
        let c1 = if has_clip_id(clips, c.right_id) {
            clips.remove(index_of_clip(clips, c.right_id))
        } else {
            clips
        };
        let c2 = if has_clip_id(c1, c.left_id) {
            c1.update(index_of_clip(c1, c.left_id), c.original_clip)
        } else {
            c1
        };
        with_track_clips(v, c.track_id, sorted_by_insertion(c2))
    } else {
        v
    }
}

impl Clone for SplitClipCmd {
    fn clone(&self) -> (r: Self)
        ensures
            r == *self,
    {
        SplitClipCmd {
            left_id: self.left_id,
            right_id: self.right_id,
            track_id: self.track_id,
            split_time: self.split_time,
            split_source_time: self.split_source_time,
            original_clip: self.original_clip.clone(),
        }
    }
}

/// Reverting a split just applied restores the timeline, when the track
/// is ordered by start time, holds no clip with the right id, and its left
/// clip, if it has one, is still the original clip.
pub proof fn lemma_split_reverted(v: TimelineView, c: SplitClipCmd)
    requires
        split_undoable(v, c),
    ensures
        with_split_reverted(with_split_applied(v, c), c) == v,
{
    if !has_track(v.tracks, c.track_id) {
        return;
    }
    let w = choose|w: int| 0 <= w < v.tracks.len() && (#[trigger] v.tracks[w]).id == c.track_id;
    lemma_first_track_view_exists(v.tracks, c.track_id, w);
    let i = track_position(v.tracks, c.track_id);
    let clips = clips_of(v, c.track_id);
    lemma_sort_orders(clips);
    if !has_clip_id(clips, c.left_id) {
        assert(with_split_applied(v, c) == v);
        assert(with_split_reverted(v, c).tracks =~= v.tracks);
        return;
    }
    let wl = choose|wl: int| 0 <= wl < clips.len() && (#[trigger] clips[wl]).id == c.left_id;
    crate::timeline::lemma_first_with_id_exists(clips, c.left_id, wl);
    let p = index_of_clip(clips, c.left_id);
    let cur = clips[p];
    if !covers(cur, c.split_time) {
        assert(with_split_applied(v, c) == v);
        assert(clips.update(p, c.original_clip) =~= clips);
        assert(with_split_reverted(v, c).tracks =~= v.tracks);
        return;
    }
    let kept = clips.update(p, left_part(cur, c.split_time, c.split_source_time));
    let right = right_part(cur, c.right_id, c.split_time, c.split_source_time);
    lemma_insert_position_exists(kept, c.split_time);
    let q = insert_position(kept, c.split_time);
    assert(q > p) by {
        if q <= p {
            assert(kept[q].timeline_start.0 > c.split_time.0);
            if q < p {
                assert(kept[q] == clips[q]);
                assert(clips[q].timeline_start.0 <= clips[p].timeline_start.0);
            }
        }
    }
    let ins = kept.insert(q, right);
    let a = with_split_applied(v, c);
    assert(is_first_track_view(a.tracks, c.track_id, i));
    lemma_track_position_is(a.tracks, c.track_id, i);
    assert(clips_of(a, c.track_id) == ins);
    assert(cur.id != c.right_id);
    assert forall|j: int| 0 <= j < q implies (#[trigger] ins[j]).id != c.right_id by {
        assert(ins[j] == kept[j]);
        if j != p {
            assert(kept[j] == clips[j]);
            if clips[j].id == c.right_id {
                assert(has_clip_id(clips, c.right_id));
            }
        }
    }
    assert(ins[q] == right);
    assert(crate::timeline::is_first_with_id(ins, c.right_id, q));
    lemma_index_of_clip_is(ins, c.right_id, q);
    let c1 = ins.remove(q);
    assert(c1 =~= kept);
    assert forall|j: int| 0 <= j < p implies (#[trigger] kept[j]).id != c.left_id by {
        assert(kept[j] == clips[j]);
    }
    assert(crate::timeline::is_first_with_id(kept, c.left_id, p));
    lemma_index_of_clip_is(kept, c.left_id, p);
    let c2 = kept.update(p, c.original_clip);
    assert(c2 =~= clips);
    let r = with_split_reverted(a, c);
    assert(r.tracks =~= v.tracks);
}

impl Command for SplitClipCmd {
    open spec fn applied(&self, v: TimelineView) -> TimelineView {
        with_split_applied(v, *self)
    }

    open spec fn reverted(&self, v: TimelineView) -> TimelineView {
        with_split_reverted(v, *self)
    }

    /// Split the left clip at the split time and insert its right part.
    fn apply(&self, timeline: &mut Timeline) -> (r: bool)
        ensures
            r == split_applies(old(timeline)@, *self),
    {
        let ghost old_tl = *timeline;
        let track = match timeline.track_mut(self.track_id) {
            Some(t) => t,
            None => {
                proof {
                    crate::timeline::lemma_no_track_view(old_tl, self.track_id);
                }
                return false;
            },
        };
        let ghost k = choose|k: int|
            crate::timeline::is_first_track(old_tl.tracks@, self.track_id, k) && *track
                == old_tl.tracks@[k];
        proof {
            crate::timeline::lemma_first_track_view(old_tl, self.track_id, k);
        }
        let pos = match track.clip_index(self.left_id) {
            Some(p) => p,
            None => {
                proof {
                    let k2 = choose|k2: int|
                        crate::timeline::is_first_track(old_tl.tracks@, self.track_id, k2)
                            && final(timeline).tracks@ == old_tl.tracks@.update(k2, *final(track));
                    crate::timeline::lemma_first_track_view(old_tl, self.track_id, k2);
                    assert(final(track)@ == old_tl.tracks@[k2]@);
                    assert(final(timeline)@.tracks =~= old_tl@.tracks);
                }
                return false;
            },
        };
        let ghost before = track.clips@;
        let right = track.clips[pos].split(self.right_id, self.split_time, self.split_source_time);
        match right {
            Some(rc) => {
                track.insert_clip(rc);
            },
            None => {
                assert(track.clips@ =~= before);
            },
        }
        proof {
            let k2 = choose|k2: int|
                crate::timeline::is_first_track(old_tl.tracks@, self.track_id, k2)
                    && final(timeline).tracks@ == old_tl.tracks@.update(k2, *final(track));
            crate::timeline::lemma_first_track_view(old_tl, self.track_id, k2);
            if covers(before[pos as int], self.split_time) {
                assert(final(timeline)@.tracks =~= with_split_applied(old_tl@, *self).tracks);
            } else {
                assert(final(track)@ == old_tl.tracks@[k2]@);
                assert(final(timeline)@.tracks =~= old_tl@.tracks);
            }
        }
        true
    }

    /// Remove the right part, put the original clip back and reorder.
    fn revert(&self, timeline: &mut Timeline) -> (r: bool)
        ensures
            r == has_track(old(timeline)@.tracks, self.track_id),
    {
        let ghost old_tl = *timeline;
        let track = match timeline.track_mut(self.track_id) {
            Some(t) => t,
            None => {
                proof {
                    crate::timeline::lemma_no_track_view(old_tl, self.track_id);
                }
                return false;
            },
        };
        let ghost k = choose|k: int|
            crate::timeline::is_first_track(old_tl.tracks@, self.track_id, k) && *track
                == old_tl.tracks@[k];
        proof {
            crate::timeline::lemma_first_track_view(old_tl, self.track_id, k);
        }
        let _ = track.remove_clip(self.right_id);
        match track.clip_index(self.left_id) {
            Some(pos) => {
                track.clips[pos] = self.original_clip.clone();
            },
            None => {},
        }
        track.sort_clips_by_start();
        proof {
            let k2 = choose|k2: int|
                crate::timeline::is_first_track(old_tl.tracks@, self.track_id, k2)
                    && final(timeline).tracks@ == old_tl.tracks@.update(k2, *final(track));
            crate::timeline::lemma_first_track_view(old_tl, self.track_id, k2);
            assert(final(timeline)@.tracks =~= with_split_reverted(old_tl@, *self).tracks);
        }
        true
    }

    fn describe(&self) -> (r: &'static str)
        ensures
            r@ == "Split clip"@,
    {
        "Split clip"
    }
}

/// Any edit the editor records.
#[derive(Debug)]
pub enum EditCommand {
    Add(AddClipCmd),
    Delete(DeleteClipCmd),
    Move(MoveClipCmd),
    Split(SplitClipCmd),
}

impl Command for EditCommand {
    open spec fn applied(&self, v: TimelineView) -> TimelineView {
        match *self {
            EditCommand::Add(c) => c.applied(v),
            EditCommand::Delete(c) => c.applied(v),
            EditCommand::Move(c) => c.applied(v),
            EditCommand::Split(c) => c.applied(v),
        }
    }

    open spec fn reverted(&self, v: TimelineView) -> TimelineView {
        match *self {
            EditCommand::Add(c) => c.reverted(v),
            EditCommand::Delete(c) => c.reverted(v),
            EditCommand::Move(c) => c.reverted(v),
            EditCommand::Split(c) => c.reverted(v),
        }
    }

    fn apply(&self, timeline: &mut Timeline) -> (r: bool)
        ensures
            r == match *self {
                EditCommand::Add(c) => has_track(old(timeline)@.tracks, c.track_id),
                EditCommand::Delete(c) => has_track(old(timeline)@.tracks, c.track_id),
                EditCommand::Move(c) => holds_clip(old(timeline)@, c.track_id, c.clip_id),
                EditCommand::Split(c) => split_applies(old(timeline)@, c),
            },
    {
        match self {
            EditCommand::Add(c) => c.apply(timeline),
            EditCommand::Delete(c) => c.apply(timeline),
            EditCommand::Move(c) => c.apply(timeline),
            EditCommand::Split(c) => c.apply(timeline),
        }
    }

    fn revert(&self, timeline: &mut Timeline) -> (r: bool)
        ensures
            r == match *self {
                EditCommand::Add(c) => has_track(old(timeline)@.tracks, c.track_id),
                EditCommand::Delete(c) => has_track(old(timeline)@.tracks, c.track_id),
                EditCommand::Move(c) => holds_clip(old(timeline)@, c.track_id, c.clip_id),
                EditCommand::Split(c) => has_track(old(timeline)@.tracks, c.track_id),
            },
    {
        match self {
            EditCommand::Add(c) => c.revert(timeline),
            EditCommand::Delete(c) => c.revert(timeline),
            EditCommand::Move(c) => c.revert(timeline),
            EditCommand::Split(c) => c.revert(timeline),
        }
    }

    fn describe(&self) -> (r: &'static str)
        ensures
            r@ == match *self {
                EditCommand::Add(_) => "Add clip"@,
                EditCommand::Delete(_) => "Delete clip"@,
                EditCommand::Move(_) => "Move clip"@,
                EditCommand::Split(_) => "Split clip"@,
            },
    {
        match self {
            EditCommand::Add(c) => c.describe(),
            EditCommand::Delete(c) => c.describe(),
            EditCommand::Move(c) => c.describe(),
            EditCommand::Split(c) => c.describe(),
        }
    }
}

/// Undoing `c` right after applying it to `v` gives `v` back: the track,
/// if there is one, holds no clip with the added clip's id.
pub open spec fn add_undoable(v: TimelineView, c: AddClipCmd) -> bool {
    has_track(v.tracks, c.track_id) ==> !has_clip_id(clips_of(v, c.track_id), c.clip.id)
}

/// Undoing `c` right after applying it to `v` gives `v` back: the track,
/// if there is one, is ordered by start time and holds the clip, as the
/// command recorded it, and no clip after it starts at the same time.
pub open spec fn delete_undoable(v: TimelineView, c: DeleteClipCmd) -> bool {
    has_track(v.tracks, c.track_id) ==> {
        let clips = clips_of(v, c.track_id);
        &&& sorted_by_start(clips)
        &&& has_clip_id(clips, c.clip.id)
        &&& clips[index_of_clip(clips, c.clip.id)] == c.clip
        &&& forall|j: int|
            index_of_clip(clips, c.clip.id) < j < clips.len()
                ==> (#[trigger] clips[j]).timeline_start != c.clip.timeline_start
    }
}

/// Undoing `c` right after applying it to `v` gives `v` back: the clip, if
/// the track holds it, is at the span the command moves it back to.
pub open spec fn move_undoable(v: TimelineView, c: MoveClipCmd) -> bool {
    holds_clip(v, c.track_id, c.clip_id) ==> {
        let clips = clips_of(v, c.track_id);
        let clip = clips[index_of_clip(clips, c.clip_id)];
        clip.timeline_start == c.old_timeline_start && clip.timeline_end == c.old_timeline_end
    }
}

/// Undoing `c` right after applying it to `v` gives `v` back: the track,
/// if there is one, is ordered by start time, holds no clip with the right
/// id, and its left clip, if it has one, is the original clip.
pub open spec fn split_undoable(v: TimelineView, c: SplitClipCmd) -> bool {
    has_track(v.tracks, c.track_id) ==> {
        let clips = clips_of(v, c.track_id);
        &&& sorted_by_start(clips)
        &&& !has_clip_id(clips, c.right_id)
        &&& has_clip_id(clips, c.left_id) ==> clips[index_of_clip(clips, c.left_id)]
            == c.original_clip
    }
}

/// Undoing `c` right after applying it to `v` gives `v` back.
pub open spec fn undoable(v: TimelineView, c: EditCommand) -> bool {
    match c {
        EditCommand::Add(a) => add_undoable(v, a),
        EditCommand::Delete(d) => delete_undoable(v, d),
        EditCommand::Move(m) => move_undoable(v, m),
        EditCommand::Split(s) => split_undoable(v, s),
    }
}

/// Moving a clip and moving it back restores the timeline, when the clip
/// was at the span it is moved back to.
pub proof fn lemma_move_reverted(v: TimelineView, c: MoveClipCmd)
    requires
        move_undoable(v, c),
    ensures
        c.reverted(c.applied(v)) == v,
{
    if holds_clip(v, c.track_id, c.clip_id) {
        let w = choose|w: int| 0 <= w < v.tracks.len() && (#[trigger] v.tracks[w]).id == c.track_id;
        lemma_first_track_view_exists(v.tracks, c.track_id, w);
        let i = track_position(v.tracks, c.track_id);
        let clips = clips_of(v, c.track_id);
        let wc = choose|wc: int| 0 <= wc < clips.len() && (#[trigger] clips[wc]).id == c.clip_id;
        crate::timeline::lemma_first_with_id_exists(clips, c.clip_id, wc);
        let p = index_of_clip(clips, c.clip_id);
        let moved = clips.update(
            p,
            Clip { timeline_start: c.new_timeline_start, timeline_end: c.new_timeline_end, ..clips[p] },
        );
        let a = c.applied(v);
        assert(is_first_track_view(a.tracks, c.track_id, i));
        lemma_track_position_is(a.tracks, c.track_id, i);
        assert(clips_of(a, c.track_id) == moved);
        assert forall|j: int| 0 <= j < p implies (#[trigger] moved[j]).id != c.clip_id by {
            assert(moved[j] == clips[j]);
        }
        assert(crate::timeline::is_first_with_id(moved, c.clip_id, p));
        lemma_index_of_clip_is(moved, c.clip_id, p);
        assert(holds_clip(a, c.track_id, c.clip_id));
        assert(moved.update(
            p,
            Clip { timeline_start: c.old_timeline_start, timeline_end: c.old_timeline_end, ..moved[p] },
        ) =~= clips);
        assert(c.reverted(a).tracks =~= v.tracks);
    }
}

/// Undoing an edit right after applying it restores the timeline, for
/// every kind of edit the editor records.
pub proof fn lemma_edit_reverted(v: TimelineView, c: EditCommand)
    requires
        undoable(v, c),
    ensures
        c.reverted(c.applied(v)) == v,
{
    match c {
        EditCommand::Add(a) => {
            crate::timeline::lemma_added_clip_removed(v, a.track_id, a.clip);
        },
        EditCommand::Delete(d) => {
            if has_track(v.tracks, d.track_id) {
                crate::timeline::lemma_removed_clip_added(v, d.track_id, d.clip);
            }
        },
        EditCommand::Move(m) => {
            lemma_move_reverted(v, m);
        },
        EditCommand::Split(s) => {
            lemma_split_reverted(v, s);
        },
    }
}

/// Default number of edits kept for undo.
pub const DEFAULT_MAX_UNDO: usize = 100;

/// Undo and redo stacks, as sequences (last = top).
pub struct UndoView<C> {
    pub undo: Seq<C>,
    pub redo: Seq<C>,
    pub max: nat,
}

/// The history after recording `cmd`: the oldest edit is dropped when the
/// undo stack is full, `cmd` goes on top, and the redo stack is emptied.
pub open spec fn after_push<C>(v: UndoView<C>, cmd: C) -> UndoView<C> {
    let kept = if v.undo.len() >= v.max {
        v.undo.drop_first()
    } else {
        v.undo
    };
    UndoView { undo: kept.push(cmd), redo: Seq::empty(), max: v.max }
}

/// The history after an undo: the top edit moves to the redo stack.
pub open spec fn after_undo<C>(v: UndoView<C>) -> UndoView<C> {
    if v.undo.len() == 0 {
        v
    } else {
        UndoView { undo: v.undo.drop_last(), redo: v.redo.push(v.undo.last()), max: v.max }
    }
}

/// The history after a redo: the top edit of the redo stack moves back.
pub open spec fn after_redo<C>(v: UndoView<C>) -> UndoView<C> {
    if v.redo.len() == 0 {
        v
    } else {
        UndoView { undo: v.undo.push(v.redo.last()), redo: v.redo.drop_last(), max: v.max }
    }
}

/// The undo stack. Holds up to `max` commands; older ones are dropped
/// first.
pub struct UndoStack<C> {
    undo: Vec<C>,
    redo: Vec<C>,
    pub max: usize,
}

impl<C> View for UndoStack<C> {
    type V = UndoView<C>;

    closed spec fn view(&self) -> UndoView<C> {
        UndoView { undo: self.undo@, redo: self.redo@, max: self.max as nat }
    }
}

impl<C> Default for UndoStack<C> {
    fn default() -> (r: UndoStack<C>)
        ensures
            r@.undo.len() == 0,
            r@.redo.len() == 0,
            r@.max == DEFAULT_MAX_UNDO,
    {
        UndoStack { undo: Vec::new(), redo: Vec::new(), max: DEFAULT_MAX_UNDO }
    }
}

impl<C: Command> UndoStack<C> {
    /// The number of commands kept for undo.
    pub fn max(&self) -> (r: usize)
        ensures
            r == self@.max,
    {
        self.max
    }

    /// Apply `cmd` to the timeline and record it; clears the redo stack.
    /// A full history (`max` reached) drops its oldest command first.
    pub fn push(&mut self, cmd: C, timeline: &mut Timeline)
        requires
            old(self)@.undo.len() >= old(self)@.max ==> old(self)@.undo.len() > 0,
        ensures
            final(self)@ == after_push(old(self)@, cmd),
            final(timeline)@ == cmd.applied(old(timeline)@),
    {
        if self.undo.len() >= self.max {
            let _ = self.undo.remove(0);
        }
        let _ = cmd.apply(timeline);
        self.undo.push(cmd);
        self.redo.clear();
        proof {
            assert(self@.undo =~= after_push(old(self)@, cmd).undo);
        }
    }

    /// Revert the most recent command and move it to the redo stack;
    /// returns false, touching nothing, when there is none.
    pub fn undo(&mut self, timeline: &mut Timeline) -> (r: bool)
        ensures
            final(self)@ == after_undo(old(self)@),
            r == (old(self)@.undo.len() > 0),
            r ==> final(timeline)@ == old(self)@.undo.last().reverted(old(timeline)@),
            !r ==> *final(timeline) == *old(timeline),
    {
        let cmd = match self.undo.pop() {
            Some(c) => c,
            None => return false,
        };
        let _ = cmd.revert(timeline);
        self.redo.push(cmd);
        true
    }

    /// Re-apply the most recently undone command and move it back to the
    /// undo stack; returns false, touching nothing, when there is none.
    pub fn redo(&mut self, timeline: &mut Timeline) -> (r: bool)
        ensures
            final(self)@ == after_redo(old(self)@),
            r == (old(self)@.redo.len() > 0),
            r ==> final(timeline)@ == old(self)@.redo.last().applied(old(timeline)@),
            !r ==> *final(timeline) == *old(timeline),
    {
        let cmd = match self.redo.pop() {
            Some(c) => c,
            None => return false,
        };
        let _ = cmd.apply(timeline);
        self.undo.push(cmd);
        true
    }

    /// Whether there is a command to undo.
    pub fn can_undo(&self) -> (r: bool)
        ensures
            r == (self@.undo.len() > 0),
    {
        !self.undo.is_empty()
    }

    /// Whether there is a command to redo.
    pub fn can_redo(&self) -> (r: bool)
        ensures
            r == (self@.redo.len() > 0),
    {
        !self.redo.is_empty()
    }
}

/// Undoing the command just recorded removes it from the undo stack (which
/// is then as before, when nothing was dropped to make room) and leaves it
/// alone on the redo stack.
pub proof fn lemma_undo_after_push<C>(v: UndoView<C>, cmd: C)
    requires
        v.undo.len() < v.max,
    ensures
        after_undo(after_push(v, cmd)) == (UndoView { undo: v.undo, redo: seq![cmd], max: v.max }),
{
    assert(after_push(v, cmd).undo.drop_last() =~= v.undo);
    assert(Seq::<C>::empty().push(cmd) =~= seq![cmd]);
}

/// Redo after undo restores the history.
pub proof fn lemma_redo_after_undo<C>(v: UndoView<C>)
    requires
        v.undo.len() > 0,
    ensures
        after_redo(after_undo(v)) == v,
{
    assert(v.undo.drop_last().push(v.undo.last()) =~= v.undo);
    assert(v.redo.push(v.undo.last()).drop_last() =~= v.redo);
}

/// Undo after redo restores the history.
pub proof fn lemma_undo_after_redo<C>(v: UndoView<C>)
    requires
        v.redo.len() > 0,
    ensures
        after_undo(after_redo(v)) == v,
{
    assert(v.redo.drop_last().push(v.redo.last()) =~= v.redo);
    assert(v.undo.push(v.redo.last()).drop_last() =~= v.undo);
}

/// Recording a command never lets the undo stack grow past its limit.
pub proof fn lemma_push_bounded<C>(v: UndoView<C>, cmd: C)
    requires
        v.undo.len() <= v.max,
        v.max > 0,
    ensures
        after_push(v, cmd).undo.len() <= v.max,
        after_push(v, cmd).undo.last() == cmd,
{
}

/// Recording an edit and undoing it at once gives back the timeline the
/// edit was recorded on: the undo reverts the edit just applied.
pub proof fn lemma_undo_after_push_restores(h: UndoView<EditCommand>, cmd: EditCommand, v: TimelineView)
    requires
        undoable(v, cmd),
    ensures
        after_push(h, cmd).undo.len() > 0,
        after_push(h, cmd).undo.last().reverted(cmd.applied(v)) == v,
{
    lemma_edit_reverted(v, cmd);
}

/// Redoing an edit just undone gives back the timeline the edit had made.
pub proof fn lemma_redo_after_undo_restores(h: UndoView<EditCommand>, v: TimelineView)
    requires
        h.undo.len() > 0,
        undoable(v, h.undo.last()),
    ensures
        after_undo(h).redo.len() > 0,
        after_undo(h).redo.last().applied(h.undo.last().reverted(h.undo.last().applied(v)))
            == h.undo.last().applied(v),
{
    lemma_edit_reverted(v, h.undo.last());
}

} // verus!
