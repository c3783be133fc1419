//! Editing state that is not saved with the project: selection, playback
//! state, and the edits made through them.

use crate::filepath::{same_path, same_path_text};
use crate::id::Id;
use crate::media::{asset_duration, MediaAsset, MediaMetadata};
use crate::project::{first_asset, has_asset, Project};
use crate::timeline::tracks_end;
use crate::time::{TimeKey, ZERO_KEY};
use crate::timeline::{
    covers, has_clip_id, has_track, index_of_clip, insert_position, left_part, right_part,
    track_position, with_clip_added, with_clip_removed, Clip, ClipSource, Timeline, TimelineView,
    Track, TrackKind, TrackView, FULL_LEVEL_BITS, NORMAL_SPEED_BITS,
};
use vstd::prelude::*;

verus! {

/// A timeline selection: nothing, a clip, or a track.
#[derive(Clone, Copy, PartialEq, Eq, Debug, Structural)]
pub enum Selection {
    Nothing,
    Clip(Id),
    Track(Id),
}

impl Default for Selection {
    fn default() -> (r: Selection)
        ensures
            r == Selection::Nothing,
    {
        Selection::Nothing
    }
}

/// Playback state.
#[derive(Clone, Copy, PartialEq, Eq, Debug, Structural)]
pub enum PlayState {
    Paused,
    Playing,
}

impl Default for PlayState {
    fn default() -> (r: PlayState)
        ensures
            r == PlayState::Paused,
    {
        PlayState::Paused
    }
}

impl PlayState {
    /// The other playback state.
    pub open spec fn toggled_spec(self) -> PlayState {
        match self {
            PlayState::Paused => PlayState::Playing,
            PlayState::Playing => PlayState::Paused,
        }
    }

    /// Playing becomes paused and paused becomes playing.
    pub fn toggled(self) -> (r: PlayState)
        ensures
            r == self.toggled_spec(),
    {
        match self {
            PlayState::Paused => PlayState::Playing,
            PlayState::Playing => PlayState::Paused,
        }
    }
}

/// The next id of an editing session: ids are handed out by counting up
/// from the last one.
pub fn next_session_id(last: &mut u64) -> (r: Id)
    requires
        *old(last) < u64::MAX,
    ensures
        *final(last) == *old(last) + 1,
        r.0 == *final(last),
{
    *last = *last + 1;
    Id(*last as u128)
}

/// Some entity of project `p` (an asset, a track, a clip or a transition)
/// has id value `x`.
pub open spec fn project_has_id(p: Project, x: u128) -> bool {
    ||| exists|i: int| 0 <= i < p.assets@.len() && (#[trigger] p.assets@[i]).id.0 == x
    ||| exists|i: int|
        0 <= i < p.timeline.tracks@.len() && (#[trigger] p.timeline.tracks@[i]).id.0 == x
    ||| exists|i: int, j: int|
        0 <= i < p.timeline.tracks@.len() && 0 <= j < p.timeline.tracks@[i].clips@.len()
            && (#[trigger] p.timeline.tracks@[i].clips@[j]).id.0 == x
    ||| exists|i: int|
        0 <= i < p.timeline.transitions@.len() && (#[trigger] p.timeline.transitions@[
            i
        ]).id.0 == x
}

/// `last` is the largest id value of `p` that a session counter can hold,
/// or zero when `p` holds no such id: the session ids counted up from it
/// are held by nothing in `p`.
pub open spec fn counts_past(p: Project, last: u64) -> bool {
    &&& forall|x: u128| #[trigger] project_has_id(p, x) && x <= u64::MAX ==> x <= last
    &&& last == 0 || project_has_id(p, last as u128)
}

/// `cur` raised to `x` when `x` is a larger value that a counter can hold.
fn raise_to(cur: u64, x: u128) -> (r: u64)
    ensures
        r == (if x <= u64::MAX && x > cur { x as u64 } else { cur }),
{
    if x <= 0xffff_ffff_ffff_ffff && x > cur as u128 {
        x as u64
    } else {
        cur
    }
}

/// The largest id value of `p` that a session counter can hold, or zero.
pub fn highest_session_id(p: &Project) -> (r: u64)
    ensures
        counts_past(*p, r),
{
    let mut cur: u64 = 0;
    let mut k: usize = 0;
    while k < p.assets.len()
        invariant
            k <= p.assets@.len(),
            forall|i: int|
                0 <= i < k ==> (#[trigger] p.assets@[i]).id.0 <= u64::MAX ==> p.assets@[i].id.0
                    <= cur,
            cur == 0 || project_has_id(*p, cur as u128),
        decreases p.assets@.len() - k,
    {
        let x = p.assets[k].id.0;
        let next = raise_to(cur, x);
        if next != cur {
            assert(p.assets@[k as int].id.0 == x);
        }
        cur = next;
        k = k + 1;
    }
    let ghost asset_bound = cur;
    let mut k: usize = 0;
    while k < p.timeline.tracks.len()
        invariant
            k <= p.timeline.tracks@.len(),
            asset_bound <= cur,
            forall|i: int|
                0 <= i < p.assets@.len() ==> (#[trigger] p.assets@[i]).id.0 <= u64::MAX
                    ==> p.assets@[i].id.0 <= asset_bound,
            forall|i: int|
                0 <= i < k ==> (#[trigger] p.timeline.tracks@[i]).id.0 <= u64::MAX
                    ==> p.timeline.tracks@[i].id.0 <= cur,
            forall|i: int, j: int|
                0 <= i < k && 0 <= j < p.timeline.tracks@[i].clips@.len() ==> (#[trigger] p.timeline.tracks@[i].clips@[j]).id.0
                    <= u64::MAX ==> p.timeline.tracks@[i].clips@[j].id.0 <= cur,
            cur == 0 || project_has_id(*p, cur as u128),
        decreases p.timeline.tracks@.len() - k,
    {
        let track = &p.timeline.tracks[k];
        let x = track.id.0;
        let next = raise_to(cur, x);
        if next != cur {
            assert(p.timeline.tracks@[k as int].id.0 == x);
        }
        cur = next;
        let ghost before_clips = cur;
        let mut j: usize = 0;
        while j < track.clips.len()
            invariant
                k < p.timeline.tracks@.len(),
                *track == p.timeline.tracks@[k as int],
                j <= track.clips@.len(),
                before_clips <= cur,
                forall|c: int|
                    0 <= c < j ==> (#[trigger] track.clips@[c]).id.0 <= u64::MAX
                        ==> track.clips@[c].id.0 <= cur,
                cur == 0 || project_has_id(*p, cur as u128),
            decreases track.clips@.len() - j,
        {
            let y = track.clips[j].id.0;
            let next = raise_to(cur, y);
            if next != cur {
                assert(p.timeline.tracks@[k as int].clips@[j as int].id.0 == y);
            }
            cur = next;
            j = j + 1;
        }
        assert forall|i: int, c: int|
            0 <= i < k + 1 && 0 <= c < p.timeline.tracks@[i].clips@.len() && (
            #[trigger] p.timeline.tracks@[i].clips@[c]).id.0 <= u64::MAX implies p.timeline.tracks@[
            i].clips@[c].id.0 <= cur by {
            if i == k {
                assert(track.clips@[c] == p.timeline.tracks@[i].clips@[c]);
            }
        }
        k = k + 1;
    }
    let ghost track_bound = cur;
    let mut k: usize = 0;
    while k < p.timeline.transitions.len()
        invariant
            k <= p.timeline.transitions@.len(),
            asset_bound <= track_bound <= cur,
            forall|i: int|
                0 <= i < p.assets@.len() ==> (#[trigger] p.assets@[i]).id.0 <= u64::MAX
                    ==> p.assets@[i].id.0 <= asset_bound,
            forall|i: int|
                0 <= i < p.timeline.tracks@.len() ==> (#[trigger] p.timeline.tracks@[i]).id.0
                    <= u64::MAX ==> p.timeline.tracks@[i].id.0 <= track_bound,
            forall|i: int, j: int|
                0 <= i < p.timeline.tracks@.len() && 0 <= j
                    < p.timeline.tracks@[i].clips@.len() ==> (#[trigger] p.timeline.tracks@[i].clips@[j]).id.0
                    <= u64::MAX ==> p.timeline.tracks@[i].clips@[j].id.0 <= track_bound,
            forall|i: int|
                0 <= i < k ==> (#[trigger] p.timeline.transitions@[i]).id.0 <= u64::MAX
                    ==> p.timeline.transitions@[i].id.0 <= cur,
            cur == 0 || project_has_id(*p, cur as u128),
        decreases p.timeline.transitions@.len() - k,
    {
        let x = p.timeline.transitions[k].id.0;
        let next = raise_to(cur, x);
        if next != cur {
            assert(p.timeline.transitions@[k as int].id.0 == x);
        }
        cur = next;
        k = k + 1;
    }
    cur
}

/// `i` is the first track of `tracks` holding a clip with id `clip_id`.
pub open spec fn is_first_owner(tracks: Seq<TrackView>, clip_id: Id, i: int) -> bool {
    &&& 0 <= i < tracks.len()
    &&& has_clip_id(tracks[i].clips, clip_id)
    &&& forall|j: int| 0 <= j < i ==> !has_clip_id((#[trigger] tracks[j]).clips, clip_id)
}

/// Whether some track holds a clip with id `clip_id`.
pub open spec fn clip_is_placed(tracks: Seq<TrackView>, clip_id: Id) -> bool {
    exists|i: int| 0 <= i < tracks.len() && has_clip_id((#[trigger] tracks[i]).clips, clip_id)
}

/// Id of the first track holding a clip with id `clip_id` (meaningful
/// when there is one).
pub open spec fn owner_id(tracks: Seq<TrackView>, clip_id: Id) -> Id {
    tracks[choose|i: int| is_first_owner(tracks, clip_id, i)].id
}

/// The track an edit of clip `clip_id` works on: the first track with the
/// id of the clip's owner.
pub open spec fn edited_track(tracks: Seq<TrackView>, clip_id: Id) -> TrackView {
    tracks[track_position(tracks, owner_id(tracks, clip_id))]
}

/// Deleting clip `clip_id` goes ahead: the clip is placed, and the track
/// it is edited in is unlocked and holds it.
pub open spec fn deletion_allowed(v: TimelineView, clip_id: Id) -> bool {
    &&& clip_is_placed(v.tracks, clip_id)
    &&& !edited_track(v.tracks, clip_id).locked
    &&& has_clip_id(edited_track(v.tracks, clip_id).clips, clip_id)
}

proof fn lemma_first_owner_unique(tracks: Seq<TrackView>, clip_id: Id, i: int, k: int)
    requires
        is_first_owner(tracks, clip_id, i),
        is_first_owner(tracks, clip_id, k),
    ensures
        i == k,
{
    if i < k {
        assert(!has_clip_id(tracks[i].clips, clip_id));
    }
    if k < i {
        assert(!has_clip_id(tracks[k].clips, clip_id));
    }
}

proof fn lemma_owner_view(tl: Timeline, clip_id: Id, i: int)
    requires
        crate::timeline::is_first_track_with_clip(tl.tracks@, clip_id, i),
    ensures
        clip_is_placed(tl@.tracks, clip_id),
        owner_id(tl@.tracks, clip_id) == tl.tracks@[i].id,
        has_track(tl@.tracks, tl.tracks@[i].id),
{
    assert forall|j: int| 0 <= j < i implies !has_clip_id(
        (#[trigger] tl@.tracks[j]).clips,
        clip_id,
    ) by {
        assert(tl@.tracks[j] == tl.tracks@[j]@);
    }
    assert(tl@.tracks[i] == tl.tracks@[i]@);
    assert(is_first_owner(tl@.tracks, clip_id, i));
    lemma_first_owner_unique(
        tl@.tracks,
        clip_id,
        i,
        choose|k: int| is_first_owner(tl@.tracks, clip_id, k),
    );
}

proof fn lemma_not_placed_view(tl: Timeline, clip_id: Id)
    requires
        forall|i: int|
            0 <= i < tl.tracks@.len() ==> !has_clip_id((#[trigger] tl.tracks@[i]).clips@, clip_id),
    ensures
        !clip_is_placed(tl@.tracks, clip_id),
{
    assert forall|j: int| 0 <= j < tl@.tracks.len() implies !has_clip_id(
        (#[trigger] tl@.tracks[j]).clips,
        clip_id,
    ) by {
        assert(tl@.tracks[j] == tl.tracks@[j]@);
    }
}

/// The first track of the given kind.
fn first_track_of_kind(timeline: &Timeline, kind: TrackKind) -> (r: Option<Id>)
    ensures
        r is None <==> forall|i: int|
            0 <= i < timeline.tracks@.len() ==> (#[trigger] timeline.tracks@[i]).kind != kind,
        r matches Some(id) ==> exists|i: int|
            0 <= i < timeline.tracks@.len() && timeline.tracks@[i].kind == kind
                && timeline.tracks@[i].id == id && forall|j: int|
                0 <= j < i ==> (#[trigger] timeline.tracks@[j]).kind != kind,
{
    let mut i: usize = 0;
    while i < timeline.tracks.len()
        invariant
            i <= timeline.tracks@.len(),
            forall|j: int| 0 <= j < i ==> (#[trigger] timeline.tracks@[j]).kind != kind,
        decreases timeline.tracks@.len() - i,
    {
        if timeline.tracks[i].kind == kind {
            return Some(timeline.tracks[i].id);
        }
        i = i + 1;
    }
    None
}

/// The selected clip, if a clip is selected and placed on the timeline.
fn selected_clip<'a>(timeline: &'a Timeline, selection: Selection) -> (r: Option<&'a Clip>)
    ensures
        r is Some <==> (selection matches Selection::Clip(id) && clip_is_placed(
            timeline@.tracks,
            id,
        )),
        r matches Some(c) ==> (selection matches Selection::Clip(id) && c.id == id),
{
    let id = match selection {
        Selection::Clip(id) => id,
        _ => return None,
    };
    match timeline.clip(id) {
        Some((t, c)) => {
            proof {
                let i = choose|i: int|
                    crate::timeline::is_first_track_with_clip(timeline.tracks@, id, i);
                lemma_owner_view(*timeline, id, i);
            }
            Some(c)
        },
        None => {
            proof {
                lemma_not_placed_view(*timeline, id);
            }
            None
        },
    }
}

/// Delete the selected clip from its track and clear the selection.
/// Nothing changes, and false comes back, when no clip is selected, the
/// clip is not placed, or its track is locked.
fn delete_selected_clip(timeline: &mut Timeline, selection: &mut Selection) -> (r: bool)
    ensures
        r == (*old(selection) matches Selection::Clip(id) && deletion_allowed(
            old(timeline)@,
            id,
        )),
        r ==> (*old(selection) matches Selection::Clip(id) && final(timeline)@
            == with_clip_removed(old(timeline)@, owner_id(old(timeline)@.tracks, id), id)
            && *final(selection) == Selection::Nothing),
        !r ==> final(timeline)@ == old(timeline)@ && *final(selection) == *old(selection),
{
    let sel = match *selection {
        Selection::Clip(id) => id,
        _ => return false,
    };
    let ghost old_tl = *timeline;
    let track_id = match timeline.track_of_clip(sel) {
        Some(t) => t,
        None => {
            proof {
                lemma_not_placed_view(old_tl, sel);
            }
            return false;
        },
    };
    proof {
        let i = choose|i: int|
            crate::timeline::is_first_track_with_clip(old_tl.tracks@, sel, i)
                && old_tl.tracks@[i].id == track_id;
        lemma_owner_view(old_tl, sel, i);
    }
    let track = match timeline.track_mut(track_id) {
        Some(t) => t,
        None => {
            proof {
                let i = choose|i: int|
                    crate::timeline::is_first_track_with_clip(old_tl.tracks@, sel, i)
                        && old_tl.tracks@[i].id == track_id;
                assert(old_tl.tracks@[i].id == track_id);
            }
            return false;
        },
    };
    proof {
        let k = choose|k: int|
            crate::timeline::is_first_track(old_tl.tracks@, track_id, k) && *track
                == old_tl.tracks@[k];
        crate::timeline::lemma_first_track_view(old_tl, track_id, k);
    }
    if track.locked {
        proof {
            let k = choose|k: int|
                crate::timeline::is_first_track(old_tl.tracks@, track_id, k)
                    && final(timeline).tracks@ == old_tl.tracks@.update(k, *final(track)) && *track
                    == old_tl.tracks@[k];
            assert(final(timeline).tracks@ =~= old_tl.tracks@);
            assert(final(timeline)@.tracks =~= old_tl@.tracks);
        }
        return false;
    }
    let removed = track.remove_clip(sel);
    proof {
        let k = choose|k: int|
            crate::timeline::is_first_track(old_tl.tracks@, track_id, k) && final(timeline).tracks@
                == old_tl.tracks@.update(k, *final(track));
        crate::timeline::lemma_first_track_view(old_tl, track_id, k);
        assert(final(timeline)@.tracks =~= with_clip_removed(old_tl@, track_id, sel).tracks);
    }
    if removed.is_some() {
        *selection = Selection::Nothing;
        true
    } else {
        false
    }
}

/// The clip an edit of clip `clip_id` works on.
pub open spec fn edited_clip(tracks: Seq<TrackView>, clip_id: Id) -> Clip {
    edited_track(tracks, clip_id).clips[index_of_clip(edited_track(tracks, clip_id).clips, clip_id)]
}

/// An edit of clip `clip_id` finds it: the clip is placed, and the track
/// the edit works on holds it.
pub open spec fn clip_editable(v: TimelineView, clip_id: Id) -> bool {
    clip_is_placed(v.tracks, clip_id) && has_clip_id(edited_track(v.tracks, clip_id).clips, clip_id)
}

/// The timeline with the clip an edit of `clip_id` works on replaced by
/// `c`.
pub open spec fn with_edited_clip(v: TimelineView, clip_id: Id, c: Clip) -> TimelineView {
    let i = track_position(v.tracks, owner_id(v.tracks, clip_id));
    let tr = v.tracks[i];
    TimelineView {
        tracks: v.tracks.update(
            i,
            TrackView { clips: tr.clips.update(index_of_clip(tr.clips, clip_id), c), ..tr },
        ),
        ..v
    }
}

proof fn lemma_unchanged_through(old_tl: Timeline, track_id: Id, k: int)
    requires
        crate::timeline::is_first_track(old_tl.tracks@, track_id, k),
    ensures
        forall|nt: Timeline, k2: int|
            #![trigger nt.tracks@, crate::timeline::is_first_track(old_tl.tracks@, track_id, k2)]
            crate::timeline::is_first_track(old_tl.tracks@, track_id, k2) && nt.tracks@
                == old_tl.tracks@.update(k2, old_tl.tracks@[k]) && nt.transitions@
                == old_tl.transitions@ ==> nt@ == old_tl@,
{
    assert forall|nt: Timeline, k2: int|
        #![trigger nt.tracks@, crate::timeline::is_first_track(old_tl.tracks@, track_id, k2)]
        crate::timeline::is_first_track(old_tl.tracks@, track_id, k2) && nt.tracks@
            == old_tl.tracks@.update(k2, old_tl.tracks@[k]) && nt.transitions@
            == old_tl.transitions@ implies nt@ == old_tl@ by {
        crate::timeline::lemma_first_track_view(old_tl, track_id, k);
        crate::timeline::lemma_first_track_view(old_tl, track_id, k2);
        assert(nt.tracks@ =~= old_tl.tracks@);
        assert(nt@.tracks =~= old_tl@.tracks);
    }
}

proof fn lemma_edit_through(old_tl: Timeline, clip_id: Id, track_id: Id, k: int, pos: int)
    requires
        crate::timeline::is_first_track(old_tl.tracks@, track_id, k),
        track_id == owner_id(old_tl@.tracks, clip_id),
        crate::timeline::is_first_with_id(old_tl.tracks@[k].clips@, clip_id, pos),
        pos == index_of_clip(old_tl.tracks@[k].clips@, clip_id),
    ensures
        forall|nt: Timeline, t2: Track, c: Clip, k2: int|
            #![trigger nt.tracks@, old_tl.tracks@.update(k2, t2), old_tl.tracks@[k].clips@.update(pos, c)]
            crate::timeline::is_first_track(old_tl.tracks@, track_id, k2) && nt.tracks@
                == old_tl.tracks@.update(k2, t2) && nt.transitions@ == old_tl.transitions@ && t2
                == (Track { clips: t2.clips, ..old_tl.tracks@[k] }) && t2.clips@
                == old_tl.tracks@[k].clips@.update(pos, c) ==> nt@.tracks == with_edited_clip(
                old_tl@,
                clip_id,
                c,
            ).tracks && nt@.transitions == old_tl@.transitions,
{
    crate::timeline::lemma_first_track_view(old_tl, track_id, k);
    assert forall|nt: Timeline, t2: Track, c: Clip, k2: int|
        #![trigger nt.tracks@, old_tl.tracks@.update(k2, t2), old_tl.tracks@[k].clips@.update(pos, c)]
        crate::timeline::is_first_track(old_tl.tracks@, track_id, k2) && nt.tracks@
            == old_tl.tracks@.update(k2, t2) && nt.transitions@ == old_tl.transitions@ && t2
            == (Track { clips: t2.clips, ..old_tl.tracks@[k] }) && t2.clips@
            == old_tl.tracks@[k].clips@.update(pos, c) implies nt@.tracks == with_edited_clip(
        old_tl@,
        clip_id,
        c,
    ).tracks && nt@.transitions == old_tl@.transitions by {
        crate::timeline::lemma_first_track_view(old_tl, track_id, k2);
        assert(k2 == k);
        let tr = old_tl@.tracks[k];
        assert(tr == old_tl.tracks@[k]@);
        assert(t2@ == TrackView { clips: tr.clips.update(pos, c), ..tr });
        assert(nt@.tracks =~= with_edited_clip(old_tl@, clip_id, c).tracks);
        assert(nt@.transitions == with_edited_clip(old_tl@, clip_id, c).transitions);
    }
}

/// The clip `clip_id`, for editing its properties: found as every edit
/// finds it, in the first track with the id of the first track holding
/// it. What is written through the reference is all that changes.
pub fn clip_mut(timeline: &mut Timeline, clip_id: Id) -> (r: Option<&mut Clip>)
    ensures
        r is Some <==> clip_editable(old(timeline)@, clip_id),
        r is None ==> final(timeline)@ == old(timeline)@,
        r matches Some(c) ==> *c == edited_clip(old(timeline)@.tracks, clip_id) && final(timeline)@
            == with_edited_clip(old(timeline)@, clip_id, *final(c)),
{
    let ghost old_tl = *timeline;
    let track_id = match timeline.track_of_clip(clip_id) {
        Some(t) => t,
        None => {
            proof {
                lemma_not_placed_view(old_tl, clip_id);
            }
            return None;
        },
    };
    proof {
        let i = choose|i: int|
            crate::timeline::is_first_track_with_clip(old_tl.tracks@, clip_id, i)
                && old_tl.tracks@[i].id == track_id;
        lemma_owner_view(old_tl, clip_id, i);
    }
    let track = match timeline.track_mut(track_id) {
        Some(t) => t,
        None => {
            proof {
                let i = choose|i: int|
                    crate::timeline::is_first_track_with_clip(old_tl.tracks@, clip_id, i)
                        && old_tl.tracks@[i].id == track_id;
                assert(old_tl.tracks@[i].id == track_id);
            }
            return None;
        },
    };
    let ghost k = choose|k: int|
        crate::timeline::is_first_track(old_tl.tracks@, track_id, k) && *track == old_tl.tracks@[k];
    proof {
        crate::timeline::lemma_first_track_view(old_tl, track_id, k);
    }
    proof {
        lemma_unchanged_through(old_tl, track_id, k);
    }
    let pos = match track.clip_index(clip_id) {
        Some(p) => p,
        None => return None,
    };
    proof {
        lemma_edit_through(old_tl, clip_id, track_id, k, pos as int);
    }
    let c = &mut track.clips[pos];
    Some(c)
}

/// The selected clip, for editing its properties.
fn selected_clip_mut(timeline: &mut Timeline, selection: Selection) -> (r: Option<&mut Clip>)
    ensures
        r is Some <==> (selection matches Selection::Clip(id) && clip_editable(old(timeline)@, id)),
        r is None ==> final(timeline)@ == old(timeline)@,
        r matches Some(c) ==> (selection matches Selection::Clip(id) && *c == edited_clip(
            old(timeline)@.tracks,
            id,
        ) && final(timeline)@ == with_edited_clip(old(timeline)@, id, *final(c))),
{
    match selection {
        Selection::Clip(id) => clip_mut(timeline, id),
        _ => None,
    }
}

/// Splitting clip `clip_id` at `t` goes ahead: the clip can be edited and
/// covers `t`.
pub open spec fn split_allowed(v: TimelineView, clip_id: Id, t: TimeKey) -> bool {
    deletion_allowed(v, clip_id) && covers(edited_clip(v.tracks, clip_id), t)
}

/// The timeline after splitting clip `clip_id` at `t`: the clip keeps its
/// left part in place and its right part is inserted into the same track.
pub open spec fn with_clip_split(
    v: TimelineView,
    clip_id: Id,
    new_id: Id,
    t: TimeKey,
    source_t: TimeKey,
) -> TimelineView {
    let i = track_position(v.tracks, owner_id(v.tracks, clip_id));
    let tr = v.tracks[i];
    let p = index_of_clip(tr.clips, clip_id);
    let c = tr.clips[p];
    let kept = tr.clips.update(p, left_part(c, t, source_t));
    let right = right_part(c, new_id, t, source_t);
    TimelineView {
        tracks: v.tracks.update(
            i,
            TrackView { clips: kept.insert(insert_position(kept, t), right), ..tr },
        ),
        ..v
    }
}

/// Split the selected clip at the playhead `t`, where `source_t` is the
/// source time the selected clip maps `t` to. The right part gets id
/// `new_id` and goes into the same track; its id is returned. Nothing
/// changes, and `None` comes back, when no clip is selected, the clip is
/// not placed, its track is locked, or the clip does not cover `t`.
fn split_selected_clip_at_playhead(
    timeline: &mut Timeline,
    selection: Selection,
    new_id: Id,
    t: TimeKey,
    source_t: TimeKey,
) -> (r: Option<Id>)
    ensures
        r is Some <==> (selection matches Selection::Clip(id) && split_allowed(
            old(timeline)@,
            id,
            t,
        )),
        r is Some ==> r == Some(new_id),
        r is Some ==> (selection matches Selection::Clip(id) && final(timeline)@
            == with_clip_split(old(timeline)@, id, new_id, t, source_t)),
        r is None ==> final(timeline)@ == old(timeline)@,
{
    let sel = match selection {
        Selection::Clip(id) => id,
        _ => return None,
    };
    let ghost old_tl = *timeline;
    let track_id = match timeline.track_of_clip(sel) {
        Some(t) => t,
        None => {
            proof {
                lemma_not_placed_view(old_tl, sel);
            }
            return None;
        },
    };
    proof {
        let i = choose|i: int|
            crate::timeline::is_first_track_with_clip(old_tl.tracks@, sel, i)
                && old_tl.tracks@[i].id == track_id;
        lemma_owner_view(old_tl, sel, i);
    }
    let track = match timeline.track_mut(track_id) {
        Some(t) => t,
        None => {
            proof {
                let i = choose|i: int|
                    crate::timeline::is_first_track_with_clip(old_tl.tracks@, sel, i)
                        && old_tl.tracks@[i].id == track_id;
                assert(old_tl.tracks@[i].id == track_id);
            }
            return None;
        },
    };
    let ghost k = choose|k: int|
        crate::timeline::is_first_track(old_tl.tracks@, track_id, k) && *track == old_tl.tracks@[k];
    proof {
        crate::timeline::lemma_first_track_view(old_tl, track_id, k);
    }
    if track.locked {
        proof {
            let k2 = choose|k2: int|
                crate::timeline::is_first_track(old_tl.tracks@, track_id, k2) && final(timeline).tracks@
                    == old_tl.tracks@.update(k2, *final(track));
            crate::timeline::lemma_first_track_view(old_tl, track_id, k2);
            assert(final(timeline).tracks@ =~= old_tl.tracks@);
            assert(final(timeline)@.tracks =~= old_tl@.tracks);
        }
        return None;
    }
    let pos = match track.clip_index(sel) {
        Some(p) => p,
        None => {
            proof {
                let k2 = choose|k2: int|
                    crate::timeline::is_first_track(old_tl.tracks@, track_id, k2) && final(timeline).tracks@ == old_tl.tracks@.update(k2, *final(track));
                crate::timeline::lemma_first_track_view(old_tl, track_id, k2);
                assert(final(timeline).tracks@ =~= old_tl.tracks@);
                assert(final(timeline)@.tracks =~= old_tl@.tracks);
            }
            return None;
        },
    };
    let ghost before = track.clips@;
    let right = match track.clips[pos].split(new_id, t, source_t) {
        Some(c) => c,
        None => {
            proof {
                assert(track.clips@ =~= before);
                let k2 = choose|k2: int|
                    crate::timeline::is_first_track(old_tl.tracks@, track_id, k2) && final(timeline).tracks@ == old_tl.tracks@.update(k2, *final(track));
                crate::timeline::lemma_first_track_view(old_tl, track_id, k2);
                assert(final(track)@ == old_tl.tracks@[k2]@);
                assert(final(timeline)@.tracks =~= old_tl@.tracks);
            }
            return None;
        },
    };
    let ghost kept = track.clips@;
    proof {
        assert(kept =~= before.update(pos as int, left_part(before[pos as int], t, source_t)));
    }
    track.insert_clip(right);
    proof {
        let k2 = choose|k2: int|
            crate::timeline::is_first_track(old_tl.tracks@, track_id, k2) && final(timeline).tracks@
                == old_tl.tracks@.update(k2, *final(track));
        crate::timeline::lemma_first_track_view(old_tl, track_id, k2);
        assert(final(timeline)@.tracks =~= with_clip_split(old_tl@, sel, new_id, t, source_t).tracks);
    }
    Some(new_id)
}

/// Insert `clip` into the first track with id `track_id` unless that track
/// is locked; returns the clip's id, or `None` (changing nothing) when
/// there is no such track or it is locked.
fn add_clip_unless_locked(timeline: &mut Timeline, track_id: Id, clip: Clip) -> (r: Option<Id>)
    ensures
        r is Some <==> (has_track(old(timeline)@.tracks, track_id) && !old(timeline)@.tracks[track_position(
            old(timeline)@.tracks,
            track_id,
        )].locked),
        r is Some ==> r == Some(clip.id),
        r is Some ==> final(timeline)@ == crate::timeline::with_clip_added(old(timeline)@, track_id, clip),
        r is None ==> final(timeline)@ == old(timeline)@,
{
    let ghost old_tl = *timeline;
    let locked = match timeline.track(track_id) {
        Some(t) => t.locked,
        None => {
            proof {
                crate::timeline::lemma_no_track_view(old_tl, track_id);
            }
            return None;
        },
    };
    proof {
        let k = choose|k: int|
            crate::timeline::is_first_track(old_tl.tracks@, track_id, k) && old_tl.tracks@[k].locked
                == locked;
        crate::timeline::lemma_first_track_view(old_tl, track_id, k);
    }
    if locked {
        return None;
    }
    let id = clip.id;
    timeline.add_clip_to_track(track_id, clip);
    Some(id)
}

/// `c` is the clip that placing asset `a` makes: id `id`, the asset's
/// name, the whole asset as its source, spanning `[start, end)`, at normal
/// speed and full level, unmuted and unlabelled.
pub open spec fn is_clip_of_asset(c: Clip, a: MediaAsset, id: Id, start: TimeKey, end: TimeKey) -> bool {
    &&& c.id == id
    &&& c.name@ == a.name@
    &&& c.source == (ClipSource {
        asset_id: a.id,
        source_start: TimeKey(ZERO_KEY),
        source_end: asset_duration(a),
    })
    &&& c.timeline_start == start
    &&& c.timeline_end == end
    &&& c.speed_bits == NORMAL_SPEED_BITS
    &&& c.level_bits == FULL_LEVEL_BITS
    &&& !c.muted
    &&& c.label == 0
}

/// Place all of asset `asset_id` on track `track_id` as clip `next_id`,
/// spanning `[timeline_start, timeline_end)` (the caller computes the end
/// as the start plus the asset's duration). Refused, changing nothing,
/// when there is no such asset or track or the track is locked.
fn add_clip_from_asset(
    project: &mut Project,
    asset_id: Id,
    track_id: Id,
    timeline_start: TimeKey,
    timeline_end: TimeKey,
    next_id: Id,
) -> (r: Option<Id>)
    ensures
        r is Some <==> (has_asset(old(project).assets@, asset_id) && has_track(
            old(project).timeline@.tracks,
            track_id,
        ) && !old(project).timeline@.tracks[track_position(
            old(project).timeline@.tracks,
            track_id,
        )].locked),
        r is Some ==> r == Some(next_id),
        r is Some ==> exists|c: Clip|
            #[trigger] is_clip_of_asset(
                c,
                first_asset(old(project).assets@, asset_id),
                next_id,
                timeline_start,
                timeline_end,
            ) && final(project).timeline@ == with_clip_added(old(project).timeline@, track_id, c),
        r is None ==> final(project).timeline@ == old(project).timeline@,
        final(project).assets@ == old(project).assets@,
        final(project).settings == old(project).settings,
        final(project).export == old(project).export,
        final(project).last_save_path == old(project).last_save_path,
{
    let clip = match project.asset(asset_id) {
        Some(asset) => Clip::new(
            next_id,
            asset.name.as_str(),
            ClipSource::from_asset(asset),
            timeline_start,
            timeline_end,
        ),
        None => return None,
    };
    let ghost a = first_asset(project.assets@, asset_id);
    assert(is_clip_of_asset(clip, a, next_id, timeline_start, timeline_end));
    add_clip_unless_locked(&mut project.timeline, track_id, clip)
}

/// `i` is the first asset whose source file is `path`, the paths compared
/// component by component.
pub open spec fn is_first_with_path(assets: Seq<MediaAsset>, path: Seq<char>, i: int) -> bool {
    &&& 0 <= i < assets.len()
    &&& same_path(assets[i].path@, path)
    &&& forall|j: int| 0 <= j < i ==> !same_path((#[trigger] assets[j]).path@, path)
}

/// Asset `a` after probing its file gave `result`: the metadata found, or,
/// when probing failed, marked offline.
pub open spec fn probed(a: MediaAsset, result: Option<MediaMetadata>) -> MediaAsset {
    match result {
        Some(m) => MediaAsset { metadata: Some(m), ..a },
        None => MediaAsset { offline: true, ..a },
    }
}

/// Record the outcome of probing the file at `path` (`None` when probing
/// failed) on the first asset with that path, compared component by
/// component; when no asset has it, nothing changes.
pub fn apply_probe_result(assets: &mut Vec<MediaAsset>, path: &String, result: Option<MediaMetadata>)
    ensures
        forall|i: int| #[trigger]
            is_first_with_path(old(assets)@, path@, i) ==> final(assets)@ == old(assets)@.update(
                i,
                probed(old(assets)@[i], result),
            ),
        (forall|i: int|
            0 <= i < old(assets)@.len() ==> !same_path((#[trigger] old(assets)@[i]).path@, path@))
            ==> final(assets)@ == old(assets)@,
{
    let mut i: usize = 0;
    while i < assets.len()
        invariant
            i <= assets@.len(),
            assets@ == old(assets)@,
            forall|j: int| 0 <= j < i ==> !same_path((#[trigger] assets@[j]).path@, path@),
        decreases assets@.len() - i,
    {
        if same_path_text(assets[i].path.as_str(), path.as_str()) {
            match result {
                Some(m) => {
                    assets[i].metadata = Some(m);
                },
                None => {
                    assets[i].offline = true;
                },
            }
            proof {
                assert forall|k: int| #[trigger]
                    is_first_with_path(old(assets)@, path@, k) implies k == i by {
                    if i < k {
                        assert(!same_path(old(assets)@[i as int].path@, path@));
                    }
                }
                assert(assets@ =~= old(assets)@.update(
                    i as int,
                    probed(old(assets)@[i as int], result),
                ));
            }
            return;
        }
        i = i + 1;
    }
}

/// `t` limited to the span from time zero to `duration`: below zero gives
/// zero, past `duration` gives `duration`.
pub open spec fn clamped(t: u64, duration: u64) -> u64 {
    let low = if t < ZERO_KEY {
        ZERO_KEY
    } else {
        t
    };
    if low > duration {
        duration
    } else {
        low
    }
}

/// Where the playhead lands when moved to `t` on a timeline lasting
/// `duration`.
pub fn clamp_playhead(t: TimeKey, duration: TimeKey) -> (r: TimeKey)
    ensures
        r.0 == clamped(t.0, duration.0),
{
    let mut k = t;
    if k.0 < ZERO_KEY {
        k = TimeKey::zero();
    }
    if k.0 > duration.0 {
        k = duration;
    }
    k
}

/// A clamped playhead lies between time zero and the end of the timeline
/// (for a timeline that does not end before zero).
pub proof fn lemma_clamp_in_bounds(t: u64, duration: u64)
    requires
        duration >= ZERO_KEY,
    ensures
        ZERO_KEY <= clamped(t, duration) <= duration,
        ZERO_KEY <= t <= duration ==> clamped(t, duration) == t,
{
}

/// Advance playback to `next` (the playhead moved on by the frame time),
/// on a timeline lasting `duration`. While paused nothing changes and the
/// result is false. Reaching or passing the end parks the playhead at the
/// end, pauses, and gives false; otherwise the playhead moves to `next`
/// and the result is true.
fn advance_playhead(
    play_state: &mut PlayState,
    playhead: &mut TimeKey,
    next: TimeKey,
    duration: TimeKey,
) -> (r: bool)
    ensures
        *old(play_state) != PlayState::Playing ==> !r && *final(play_state) == *old(play_state)
            && *final(playhead) == *old(playhead),
        *old(play_state) == PlayState::Playing && next.0 >= duration.0 ==> !r && *final(play_state) == PlayState::Paused && *final(playhead) == duration,
        *old(play_state) == PlayState::Playing && next.0 < duration.0 ==> r && *final(play_state)
            == PlayState::Playing && *final(playhead) == next,
{
    if *play_state != PlayState::Playing {
        return false;
    }
    if next.0 >= duration.0 {
        *playhead = duration;
        *play_state = PlayState::Paused;
        false
    } else {
        *playhead = next;
        true
    }
}

/// Stop playback: pause and rewind to time zero.
fn stop(play_state: &mut PlayState, playhead: &mut TimeKey)
    ensures
        *final(play_state) == PlayState::Paused,
        final(playhead).0 == ZERO_KEY,
{
    *play_state = PlayState::Paused;
    *playhead = TimeKey::zero();
}

/// Bit pattern of 50.0, the timeline zoom of a new session (pixels per
/// second).
pub const DEFAULT_ZOOM_BITS: u64 = 0x4049_0000_0000_0000;

/// Everything the editor holds while a project is open: the project and
/// the state of the session around it.
#[derive(Clone, Debug)]
pub struct EditorStateInner {
    pub project: Project,
    /// The last session id handed out.
    pub id_gen_seq: u64,
    pub selection: Selection,
    pub playhead: TimeKey,
    pub play_state: PlayState,
    /// Bit pattern of the timeline zoom, in pixels per second.
    pub timeline_zoom_bits: u64,
    /// Bit pattern of the time at the timeline's left edge, in seconds.
    pub timeline_scroll_bits: u64,
    /// The project changed since it was last saved.
    pub dirty: bool,
    /// The last error of a background job, for the user to see.
    pub last_error: Option<String>,
}

/// `a` and `b` agree on the session state around the project, apart from
/// the selection and the changed flag.
pub open spec fn same_view(a: EditorStateInner, b: EditorStateInner) -> bool {
    &&& a.id_gen_seq == b.id_gen_seq
    &&& a.playhead == b.playhead
    &&& a.play_state == b.play_state
    &&& a.timeline_zoom_bits == b.timeline_zoom_bits
    &&& a.timeline_scroll_bits == b.timeline_scroll_bits
    &&& a.last_error == b.last_error
}

/// `a` and `b` agree on everything in the project but the timeline.
pub open spec fn same_project_but_timeline(a: Project, b: Project) -> bool {
    &&& a.settings == b.settings
    &&& a.assets@ == b.assets@
    &&& a.export == b.export
    &&& a.last_save_path == b.last_save_path
}

impl EditorStateInner {
    /// A session on a new project: nothing selected, paused at time zero,
    /// default zoom, scrolled to the start, unchanged, no error.
    pub fn new() -> (r: EditorStateInner)
        ensures
            r.id_gen_seq == 0,
            r.selection == Selection::Nothing,
            r.playhead.0 == ZERO_KEY,
            r.play_state == PlayState::Paused,
            r.timeline_zoom_bits == DEFAULT_ZOOM_BITS,
            r.timeline_scroll_bits == 0,
            !r.dirty,
            r.last_error is None,
            r.project.assets@.len() == 0,
            r.project.timeline.tracks@.len() == 4,
            r.project.timeline.tracks@[0].kind == TrackKind::Video,
            r.project.timeline.tracks@[1].kind == TrackKind::Video,
            r.project.timeline.tracks@[2].kind == TrackKind::Audio,
            r.project.timeline.tracks@[3].kind == TrackKind::Audio,
            r.project.timeline.transitions@.len() == 0,
            forall|i: int|
                0 <= i < 4 ==> (#[trigger] r.project.timeline.tracks@[i]).clips@.len() == 0,
            forall|i: int|
                0 <= i < 4 ==> !(#[trigger] r.project.timeline.tracks@[i]).locked
                    && !r.project.timeline.tracks@[i].muted
                    && !r.project.timeline.tracks@[i].solo
                    && r.project.timeline.tracks@[i].level_bits == FULL_LEVEL_BITS,
    {
        let (project, _gen) = Project::new();
        EditorStateInner {
            project,
            id_gen_seq: 0,
            selection: Selection::Nothing,
            playhead: TimeKey::zero(),
            play_state: PlayState::Paused,
            timeline_zoom_bits: DEFAULT_ZOOM_BITS,
            timeline_scroll_bits: 0,
            dirty: false,
            last_error: None,
        }
    }

    /// Open `project` in this session: nothing selected, the playhead at
    /// time zero, unchanged since loading, no error, and the session's id
    /// counter past every id the project holds, so that the ids handed
    /// out next are new to it.
    pub fn install_project(&mut self, project: Project)
        ensures
            final(self).project == project,
            counts_past(project, final(self).id_gen_seq),
            final(self).id_gen_seq < u64::MAX ==> !project_has_id(
                project,
                (final(self).id_gen_seq + 1) as u128,
            ),
            final(self).selection == Selection::Nothing,
            final(self).playhead.0 == ZERO_KEY,
            !final(self).dirty,
            final(self).last_error is None,
            final(self).play_state == old(self).play_state,
            final(self).timeline_zoom_bits == old(self).timeline_zoom_bits,
            final(self).timeline_scroll_bits == old(self).timeline_scroll_bits,
    {
        let last = highest_session_id(&project);
        self.project = project;
        self.id_gen_seq = last;
        self.selection = Selection::Nothing;
        self.playhead = TimeKey::zero();
        self.dirty = false;
        self.last_error = None;
        proof {
            if last < u64::MAX && project_has_id(project, (last + 1) as u128) {
                assert(project_has_id(project, (last + 1) as u128) && (last + 1) as u128
                    <= u64::MAX);
            }
        }
    }

    /// Note that the project changed.
    pub fn mark_dirty(&mut self)
        ensures
            final(self).dirty,
            final(self).project == old(self).project,
            final(self).selection == old(self).selection,
            same_view(*final(self), *old(self)),
    {
        self.dirty = true;
    }

    /// Import an asset: it joins the project's assets, which changes the
    /// project.
    pub fn add_asset(&mut self, asset: MediaAsset)
        ensures
            final(self).project.assets@ == old(self).project.assets@.push(asset),
            final(self).project.timeline == old(self).project.timeline,
            final(self).project.settings == old(self).project.settings,
            final(self).project.export == old(self).project.export,
            final(self).project.last_save_path == old(self).project.last_save_path,
            final(self).dirty,
            final(self).selection == old(self).selection,
            same_view(*final(self), *old(self)),
    {
        self.project.add_asset(asset);
        self.mark_dirty();
    }

    /// Place all of asset `asset_id` on track `track_id` as clip
    /// `next_id` spanning `[timeline_start, timeline_end)`, the end being
    /// the start plus the asset's duration as the caller computed it.
    /// Refused, changing nothing, when there is no such asset or track or
    /// the track is locked; otherwise the project has changed.
    pub fn add_clip_from_asset(
        &mut self,
        asset_id: Id,
        track_id: Id,
        timeline_start: TimeKey,
        timeline_end: TimeKey,
        next_id: Id,
    ) -> (r: Option<Id>)
        ensures
            r is Some <==> (has_asset(old(self).project.assets@, asset_id) && has_track(
                old(self).project.timeline@.tracks,
                track_id,
            ) && !old(self).project.timeline@.tracks[track_position(
                old(self).project.timeline@.tracks,
                track_id,
            )].locked),
            r is Some ==> r == Some(next_id) && final(self).dirty,
            r is Some ==> exists|c: Clip|
                #[trigger] is_clip_of_asset(
                    c,
                    first_asset(old(self).project.assets@, asset_id),
                    next_id,
                    timeline_start,
                    timeline_end,
                ) && final(self).project.timeline@ == with_clip_added(
                    old(self).project.timeline@,
                    track_id,
                    c,
                ),
            r is None ==> final(self).project.timeline@ == old(self).project.timeline@
                && final(self).dirty == old(self).dirty,
            same_project_but_timeline(final(self).project, old(self).project),
            final(self).selection == old(self).selection,
            same_view(*final(self), *old(self)),
    {
        let r = add_clip_from_asset(
            &mut self.project,
            asset_id,
            track_id,
            timeline_start,
            timeline_end,
            next_id,
        );
        if r.is_some() {
            self.mark_dirty();
        }
        r
    }

    /// Split the selected clip at the playhead, `source_t` being the
    /// source time the clip maps the playhead to. The right part gets id
    /// `next_id` and goes into the same track; its id is returned and the
    /// project has changed. Refused, changing nothing, when no clip is
    /// selected, the clip is not placed, its track is locked, or it does
    /// not cover the playhead.
    pub fn split_selected_clip_at_playhead(&mut self, next_id: Id, source_t: TimeKey) -> (r:
        Option<Id>)
        ensures
            r is Some <==> (old(self).selection matches Selection::Clip(id) && split_allowed(
                old(self).project.timeline@,
                id,
                old(self).playhead,
            )),
            r is Some ==> r == Some(next_id) && final(self).dirty,
            r is Some ==> (old(self).selection matches Selection::Clip(id)
                && final(self).project.timeline@ == with_clip_split(
                old(self).project.timeline@,
                id,
                next_id,
                old(self).playhead,
                source_t,
            )),
            r is None ==> final(self).project.timeline@ == old(self).project.timeline@
                && final(self).dirty == old(self).dirty,
            same_project_but_timeline(final(self).project, old(self).project),
            final(self).selection == old(self).selection,
            same_view(*final(self), *old(self)),
    {
        let r = split_selected_clip_at_playhead(
            &mut self.project.timeline,
            self.selection,
            next_id,
            self.playhead,
            source_t,
        );
        if r.is_some() {
            self.mark_dirty();
        }
        r
    }

    /// Delete the selected clip from its track and clear the selection;
    /// the project has then changed. Refused, changing nothing, when no
    /// clip is selected, the clip is not placed, or its track is locked.
    pub fn delete_selected_clip(&mut self) -> (r: bool)
        ensures
            r == (old(self).selection matches Selection::Clip(id) && deletion_allowed(
                old(self).project.timeline@,
                id,
            )),
            r ==> (old(self).selection matches Selection::Clip(id)
                && final(self).project.timeline@ == with_clip_removed(
                old(self).project.timeline@,
                owner_id(old(self).project.timeline@.tracks, id),
                id,
            ) && final(self).selection == Selection::Nothing && final(self).dirty),
            !r ==> final(self).project.timeline@ == old(self).project.timeline@
                && final(self).selection == old(self).selection && final(self).dirty == old(
                self,
            ).dirty,
            same_project_but_timeline(final(self).project, old(self).project),
            same_view(*final(self), *old(self)),
    {
        let r = delete_selected_clip(&mut self.project.timeline, &mut self.selection);
        if r {
            self.mark_dirty();
        }
        r
    }

    /// Move the playhead to `target` (the playhead moved by some amount),
    /// kept between time zero and the end of the timeline.
    pub fn nudge_playhead(&mut self, target: TimeKey)
        ensures
            final(self).playhead.0 == clamped(
                target.0,
                tracks_end(old(self).project.timeline.tracks@),
            ),
            final(self).project == old(self).project,
            final(self).selection == old(self).selection,
            final(self).play_state == old(self).play_state,
            final(self).dirty == old(self).dirty,
    {
        let duration = self.project.duration();
        self.playhead = clamp_playhead(target, duration);
    }

    /// Start playing when paused, pause when playing.
    pub fn toggle_play(&mut self)
        ensures
            final(self).play_state == old(self).play_state.toggled_spec(),
            final(self).playhead == old(self).playhead,
            final(self).project == old(self).project,
            final(self).selection == old(self).selection,
            final(self).dirty == old(self).dirty,
    {
        self.play_state = self.play_state.toggled();
    }

    /// Pause and rewind to time zero.
    pub fn stop(&mut self)
        ensures
            final(self).play_state == PlayState::Paused,
            final(self).playhead.0 == ZERO_KEY,
            final(self).project == old(self).project,
            final(self).selection == old(self).selection,
            final(self).dirty == old(self).dirty,
    {
        stop(&mut self.play_state, &mut self.playhead);
    }

    /// Advance playback to `next` (the playhead moved on by the frame
    /// time). While paused nothing changes and the result is false.
    /// Reaching or passing the end of the timeline parks the playhead
    /// there, pauses, and gives false; otherwise the playhead moves to
    /// `next` and the result is true.
    pub fn advance_playhead(&mut self, next: TimeKey) -> (r: bool)
        ensures
            old(self).play_state != PlayState::Playing ==> !r && final(self).play_state == old(
                self,
            ).play_state && final(self).playhead == old(self).playhead,
            old(self).play_state == PlayState::Playing && next.0 >= tracks_end(
                old(self).project.timeline.tracks@,
            ) ==> !r && final(self).play_state == PlayState::Paused && final(self).playhead.0
                == tracks_end(old(self).project.timeline.tracks@),
            old(self).play_state == PlayState::Playing && next.0 < tracks_end(
                old(self).project.timeline.tracks@,
            ) ==> r && final(self).play_state == PlayState::Playing && final(self).playhead
                == next,
            final(self).project == old(self).project,
            final(self).selection == old(self).selection,
            final(self).dirty == old(self).dirty,
    {
        let duration = self.project.duration();
        advance_playhead(&mut self.play_state, &mut self.playhead, next, duration)
    }

    /// The selected clip, if a clip is selected and placed.
    pub fn selected_clip(&self) -> (r: Option<&Clip>)
        ensures
            r is Some <==> (self.selection matches Selection::Clip(id) && clip_is_placed(
                self.project.timeline@.tracks,
                id,
            )),
            r matches Some(c) ==> (self.selection matches Selection::Clip(id) && c.id == id),
    {
        selected_clip(&self.project.timeline, self.selection)
    }

    /// The selected clip, for editing its properties.
    pub fn selected_clip_mut(&mut self) -> (r: Option<&mut Clip>)
        ensures
            r is Some <==> (old(self).selection matches Selection::Clip(id) && clip_editable(
                old(self).project.timeline@,
                id,
            )),
            r is None ==> final(self).project.timeline@ == old(self).project.timeline@,
            r matches Some(c) ==> (old(self).selection matches Selection::Clip(id) && *c
                == edited_clip(old(self).project.timeline@.tracks, id)
                && final(self).project.timeline@ == with_edited_clip(
                old(self).project.timeline@,
                id,
                *final(c),
            )),
    {
        selected_clip_mut(&mut self.project.timeline, self.selection)
    }

    /// The first track of the given kind.
    pub fn first_track_of_kind(&self, kind: TrackKind) -> (r: Option<Id>)
        ensures
            r is None <==> forall|i: int|
                0 <= i < self.project.timeline.tracks@.len()
                    ==> (#[trigger] self.project.timeline.tracks@[i]).kind != kind,
            r matches Some(id) ==> exists|i: int|
                0 <= i < self.project.timeline.tracks@.len()
                    && self.project.timeline.tracks@[i].kind == kind
                    && self.project.timeline.tracks@[i].id == id && forall|j: int|
                    0 <= j < i ==> (#[trigger] self.project.timeline.tracks@[j]).kind != kind,
    {
        first_track_of_kind(&self.project.timeline, kind)
    }
}

} // verus!
