//! Timeline model: tracks, clips, and the timeline container.
//!
//! Clip positions are [`TimeKey`]s, so every comparison the timeline makes
//! is the comparison of the times the keys stand for. Playback speed and
//! level are stored as the bit patterns of the floating-point values the
//! editor uses; the timeline only carries them.

use crate::id::{Id, IdGenerator};
use crate::media::{asset_duration, MediaAsset};
use crate::time::{in_range, TimeKey, TimeRange, ZERO_KEY};
use crate::transition::Transition;
use vstd::prelude::*;

verus! {

/// Bit pattern of the playback speed 1.0 (normal speed).
pub const NORMAL_SPEED_BITS: u64 = 0x3FF0_0000_0000_0000;

/// Bit pattern of the level 1.0 (full opacity / unity gain).
pub const FULL_LEVEL_BITS: u32 = 0x3F80_0000;

/// Distinguishes video and audio tracks.
#[derive(Clone, Copy, PartialEq, Eq, Debug, Structural)]
pub enum TrackKind {
    Video,
    Audio,
}

/// Which portion of the source asset a clip uses.
#[derive(Clone, Copy, PartialEq, Eq, Debug, Structural)]
pub struct ClipSource {
    pub asset_id: Id,
    /// Start time within the source asset.
    pub source_start: TimeKey,
    /// End time within the source asset.
    pub source_end: TimeKey,
}

impl ClipSource {
    /// The whole of `asset`: from its start to its duration.
    pub fn from_asset(asset: &MediaAsset) -> (r: ClipSource)
        ensures
            r.asset_id == asset.id,
            r.source_start == TimeKey(ZERO_KEY),
            r.source_end == asset_duration(*asset),
    {
        ClipSource { asset_id: asset.id, source_start: TimeKey::zero(), source_end: asset.duration() }
    }
}

/// A clip on the timeline: a placed, possibly trimmed, slice of an asset.
#[derive(Debug)]
pub struct Clip {
    pub id: Id,
    pub name: String,
    pub source: ClipSource,
    /// Where the clip starts on the timeline.
    pub timeline_start: TimeKey,
    /// Where the clip ends on the timeline.
    pub timeline_end: TimeKey,
    /// Bit pattern of the playback speed multiplier.
    pub speed_bits: u64,
    /// Bit pattern of the level (opacity for video, gain for audio).
    pub level_bits: u32,
    /// True if the clip is muted during preview and export.
    pub muted: bool,
    /// Label color (0..7).
    pub label: u8,
}

impl Clone for Clip {
    fn clone(&self) -> (r: Self)
        ensures
            r == *self,
    {
        Clip {
            id: self.id,
            name: self.name.clone(),
            source: self.source,
            timeline_start: self.timeline_start,
            timeline_end: self.timeline_end,
            speed_bits: self.speed_bits,
            level_bits: self.level_bits,
            muted: self.muted,
            label: self.label,
        }
    }
}

/// Whether clip `c` covers timeline time `t`.
pub open spec fn covers(c: Clip, t: TimeKey) -> bool {
    in_range(c.timeline_start, c.timeline_end, t)
}

/// The left part of `c` split at `t` (mapped to source time `source_t`).
pub open spec fn left_part(c: Clip, t: TimeKey, source_t: TimeKey) -> Clip {
    Clip { timeline_end: t, source: ClipSource { source_end: source_t, ..c.source }, ..c }
}

/// The right part of `c` split at `t` (mapped to source time `source_t`),
/// under id `new_id`.
pub open spec fn right_part(c: Clip, new_id: Id, t: TimeKey, source_t: TimeKey) -> Clip {
    Clip {
        id: new_id,
        timeline_start: t,
        source: ClipSource { source_start: source_t, ..c.source },
        ..c
    }
}

/// Splitting a clip at a time it covers divides its span in two: every
/// time the clip covered is covered by exactly one of the parts, and the
/// parts cover nothing else.
pub proof fn lemma_split_partitions(c: Clip, new_id: Id, t: TimeKey, source_t: TimeKey, u: TimeKey)
    requires
        covers(c, t),
    ensures
        covers(c, u) <==> (covers(left_part(c, t, source_t), u) || covers(
            right_part(c, new_id, t, source_t),
            u,
        )),
        !(covers(left_part(c, t, source_t), u) && covers(right_part(c, new_id, t, source_t), u)),
        left_part(c, t, source_t).timeline_end == right_part(c, new_id, t, source_t).timeline_start,
        left_part(c, t, source_t).source.source_end == right_part(
            c,
            new_id,
            t,
            source_t,
        ).source.source_start,
{
}

impl Clip {
    /// A clip of `source` placed at `[timeline_start, timeline_end)`, at
    /// normal speed and full level, unmuted and unlabelled.
    pub fn new(
        id: Id,
        name: &str,
        source: ClipSource,
        timeline_start: TimeKey,
        timeline_end: TimeKey,
    ) -> (r: Clip)
        ensures
            r.id == id,
            r.name@ == name@,
            r.source == source,
            r.timeline_start == timeline_start,
            r.timeline_end == timeline_end,
            r.speed_bits == NORMAL_SPEED_BITS,
            r.level_bits == FULL_LEVEL_BITS,
            !r.muted,
            r.label == 0,
    {
        Clip {
            id,
            name: name.to_owned(),
            source,
            timeline_start,
            timeline_end,
            speed_bits: NORMAL_SPEED_BITS,
            level_bits: FULL_LEVEL_BITS,
            muted: false,
            label: 0,
        }
    }

    /// The clip's span on the timeline.
    pub fn timeline_range(&self) -> (r: TimeRange)
        ensures
            r.start == self.timeline_start,
            r.end == self.timeline_end,
    {
        TimeRange { start: self.timeline_start, end: self.timeline_end }
    }

    /// Move the clip's left edge to `new_start`, its source start to
    /// `new_source_start` (the source time the caller computed for the new
    /// edge), so that the right edge stays where it is.
    pub fn trim_left(&mut self, new_start: TimeKey, new_source_start: TimeKey)
        ensures
            *final(self) == (Clip {
                timeline_start: new_start,
                source: ClipSource { source_start: new_source_start, ..old(self).source },
                ..*old(self)
            }),
    {
        self.timeline_start = new_start;
        self.source.source_start = new_source_start;
    }

    /// Move the clip's right edge to `new_end`, its source end to
    /// `new_source_end` (the source time the caller computed for the new
    /// edge).
    pub fn trim_right(&mut self, new_end: TimeKey, new_source_end: TimeKey)
        ensures
            *final(self) == (Clip {
                timeline_end: new_end,
                source: ClipSource { source_end: new_source_end, ..old(self).source },
                ..*old(self)
            }),
    {
        self.timeline_end = new_end;
        self.source.source_end = new_source_end;
    }

    /// Place the clip at `[start, end)` on the timeline, keeping everything
    /// else about it.
    pub fn set_span(&mut self, start: TimeKey, end: TimeKey)
        ensures
            *final(self) == (Clip { timeline_start: start, timeline_end: end, ..*old(self) }),
    {
        self.timeline_start = start;
        self.timeline_end = end;
    }

    /// Split the clip at timeline time `t`, where `source_t` is the source
    /// time that `t` maps to. The clip keeps the left part; the right part
    /// is returned under `new_id`. Nothing changes, and `None` comes back,
    /// when `t` is outside the clip.
    pub fn split(&mut self, new_id: Id, t: TimeKey, source_t: TimeKey) -> (r: Option<Clip>)
        ensures
            !covers(*old(self), t) ==> r is None && *final(self) == *old(self),
            covers(*old(self), t) ==> r == Some(right_part(*old(self), new_id, t, source_t))
                && *final(self) == left_part(*old(self), t, source_t),
    {
        if !self.timeline_range().contains(t) {
            return None;
        }
        let mut right = self.clone();
        right.id = new_id;
        right.timeline_start = t;
        right.source.source_start = source_t;
        self.timeline_end = t;
        self.source.source_end = source_t;
        Some(right)
    }
}

/// Helper pairing a clip's timeline span with its source span.
#[derive(Clone, Copy, Debug)]
pub struct ClipBounds {
    pub timeline: TimeRange,
    pub source: TimeRange,
}

impl ClipBounds {
    /// The bounds of `c`.
    pub fn of_clip(c: &Clip) -> (r: ClipBounds)
        ensures
            r.timeline.start == c.timeline_start,
            r.timeline.end == c.timeline_end,
            r.source.start == c.source.source_start,
            r.source.end == c.source.source_end,
    {
        ClipBounds {
            timeline: c.timeline_range(),
            source: TimeRange { start: c.source.source_start, end: c.source.source_end },
        }
    }
}

/// A timeline track: an ordered list of clips.
#[derive(Clone, Debug)]
pub struct Track {
    pub id: Id,
    pub name: String,
    pub kind: TrackKind,
    /// True if the track's output is muted (video: hidden; audio: silent).
    pub muted: bool,
    /// True if the track is the only one audible/visible during preview.
    pub solo: bool,
    /// True if the track is locked against edits.
    pub locked: bool,
    /// Bit pattern of the track level (opacity for video, gain for audio).
    pub level_bits: u32,
    /// Clips, ordered by start time ascending.
    pub clips: Vec<Clip>,
}

/// Clips are in ascending order of their start times.
pub open spec fn sorted_by_start(clips: Seq<Clip>) -> bool {
    forall|i: int, j: int|
        0 <= i < j < clips.len() ==> clips[i].timeline_start.0 <= clips[j].timeline_start.0
}

/// `i` is the first index whose clip covers `t`.
pub open spec fn is_first_covering(clips: Seq<Clip>, t: TimeKey, i: int) -> bool {
    &&& 0 <= i < clips.len()
    &&& covers(clips[i], t)
    &&& forall|j: int| 0 <= j < i ==> !covers(#[trigger] clips[j], t)
}

/// `i` is the first index whose clip has id `id`.
pub open spec fn is_first_with_id(clips: Seq<Clip>, id: Id, i: int) -> bool {
    &&& 0 <= i < clips.len()
    &&& clips[i].id == id
    &&& forall|j: int| 0 <= j < i ==> (#[trigger] clips[j]).id != id
}

/// Whether some clip has id `id`.
pub open spec fn has_clip_id(clips: Seq<Clip>, id: Id) -> bool {
    exists|i: int| 0 <= i < clips.len() && (#[trigger] clips[i]).id == id
}

/// `p` is where a clip starting at `start` goes: after every clip that
/// starts no later, before the first clip that starts later.
pub open spec fn is_insert_position(clips: Seq<Clip>, start: TimeKey, p: int) -> bool {
    &&& 0 <= p <= clips.len()
    &&& forall|j: int| 0 <= j < p ==> (#[trigger] clips[j]).timeline_start.0 <= start.0
    &&& p < clips.len() ==> clips[p].timeline_start.0 > start.0
}

/// The position a clip starting at `start` is inserted at.
pub open spec fn insert_position(clips: Seq<Clip>, start: TimeKey) -> int {
    choose|p: int| is_insert_position(clips, start, p)
}

/// The index of the first clip with id `id` (meaningful when there is one).
pub open spec fn index_of_clip(clips: Seq<Clip>, id: Id) -> int {
    choose|i: int| is_first_with_id(clips, id, i)
}

/// The largest end time among `clips`, or time zero when there are none.
pub open spec fn clips_end(clips: Seq<Clip>) -> u64
    decreases clips.len(),
{
    if clips.len() == 0 {
        ZERO_KEY
    } else if clips.len() == 1 {
        clips[0].timeline_end.0
    } else {
        let rest = clips_end(clips.drop_last());
        if clips.last().timeline_end.0 >= rest {
            clips.last().timeline_end.0
        } else {
            rest
        }
    }
}

proof fn lemma_insert_position_unique(clips: Seq<Clip>, start: TimeKey, p: int, q: int)
    requires
        is_insert_position(clips, start, p),
        is_insert_position(clips, start, q),
    ensures
        p == q,
{
    if p < q {
        assert(clips[p].timeline_start.0 <= start.0);
    }
    if q < p {
        assert(clips[q].timeline_start.0 <= start.0);
    }
}

pub proof fn lemma_insert_position_is(clips: Seq<Clip>, start: TimeKey, p: int)
    requires
        is_insert_position(clips, start, p),
    ensures
        insert_position(clips, start) == p,
{
    lemma_insert_position_unique(clips, start, p, insert_position(clips, start));
}

proof fn lemma_first_with_id_unique(clips: Seq<Clip>, id: Id, i: int, k: int)
    requires
        is_first_with_id(clips, id, i),
        is_first_with_id(clips, id, k),
    ensures
        i == k,
{
    if i < k {
        assert(clips[i].id != id);
    }
    if k < i {
        assert(clips[k].id != id);
    }
}

pub proof fn lemma_index_of_clip_is(clips: Seq<Clip>, id: Id, i: int)
    requires
        is_first_with_id(clips, id, i),
    ensures
        index_of_clip(clips, id) == i,
{
    lemma_first_with_id_unique(clips, id, i, index_of_clip(clips, id));
}

impl Track {
    /// An empty, unmuted, unlocked track at full level.
    pub fn new(id: Id, name: &str, kind: TrackKind) -> (r: Track)
        ensures
            r.id == id,
            r.name@ == name@,
            r.kind == kind,
            !r.muted,
            !r.solo,
            !r.locked,
            r.level_bits == FULL_LEVEL_BITS,
            r.clips@.len() == 0,
    {
        Track {
            id,
            name: name.to_owned(),
            kind,
            muted: false,
            solo: false,
            locked: false,
            level_bits: FULL_LEVEL_BITS,
            clips: Vec::new(),
        }
    }

    /// Index of the first clip whose timeline range contains `t`.
    pub fn clip_index_at(&self, t: TimeKey) -> (r: Option<usize>)
        ensures
            r is None <==> forall|i: int| 0 <= i < self.clips@.len() ==> !covers(
                #[trigger] self.clips@[i],
                t,
            ),
            r matches Some(i) ==> is_first_covering(self.clips@, t, i as int),
    {
        let mut i: usize = 0;
        while i < self.clips.len()
            invariant
                i <= self.clips@.len(),
                forall|j: int| 0 <= j < i ==> !covers(#[trigger] self.clips@[j], t),
            decreases self.clips@.len() - i,
        {
            if self.clips[i].timeline_range().contains(t) {
                return Some(i);
            }
            i = i + 1;
        }
        None
    }

    /// The first clip whose timeline range contains `t`, if any.
    pub fn clip_at(&self, t: TimeKey) -> (r: Option<&Clip>)
        ensures
            r is None <==> forall|i: int| 0 <= i < self.clips@.len() ==> !covers(
                #[trigger] self.clips@[i],
                t,
            ),
            r matches Some(c) ==> exists|i: int|
                is_first_covering(self.clips@, t, i) && self.clips@[i] == *c,
    {
        match self.clip_index_at(t) {
            Some(i) => Some(&self.clips[i]),
            None => None,
        }
    }

    /// The first clip whose timeline range contains `t`, for editing.
    pub fn clip_at_mut(&mut self, t: TimeKey) -> (r: Option<&mut Clip>)
        ensures
            r is None <==> forall|i: int| 0 <= i < old(self).clips@.len() ==> !covers(
                #[trigger] old(self).clips@[i],
                t,
            ),
            r is None ==> *final(self) == *old(self),
            r matches Some(c) ==> exists|i: int|
                is_first_covering(old(self).clips@, t, i) && *c == old(self).clips@[i]
                    && final(self).clips@ == old(self).clips@.update(i, *final(c))
                    && final(self).id == old(self).id && final(self).name == old(self).name
                    && final(self).kind == old(self).kind && final(self).muted == old(self).muted
                    && final(self).solo == old(self).solo && final(self).locked == old(self).locked
                    && final(self).level_bits == old(self).level_bits,
    {
        match self.clip_index_at(t) {
            Some(i) => Some(&mut self.clips[i]),
            None => None,
        }
    }

    /// Total duration of the track: the end time of its latest-ending clip,
    /// or time zero when it has no clips.
    pub fn duration(&self) -> (r: TimeKey)
        ensures
            r.0 == clips_end(self.clips@),
    {
        if self.clips.len() == 0 {
            return TimeKey::zero();
        }
        let mut best = self.clips[0].timeline_end;
        let mut i: usize = 1;
        proof {
            assert(self.clips@.take(1).drop_last() =~= Seq::<Clip>::empty());
        }
        while i < self.clips.len()
            invariant
                1 <= i <= self.clips@.len(),
                best.0 == clips_end(self.clips@.take(i as int)),
            decreases self.clips@.len() - i,
        {
            proof {
                assert(self.clips@.take(i + 1).drop_last() =~= self.clips@.take(i as int));
            }
            if self.clips[i].timeline_end.0 >= best.0 {
                best = self.clips[i].timeline_end;
            }
            i = i + 1;
        }
        proof {
            assert(self.clips@.take(i as int) =~= self.clips@);
        }
        best
    }

    /// Insert a clip after every clip that starts no later than it, so a
    /// track whose clips are ordered by start time stays ordered. Overlaps
    /// are not detected.
    pub fn insert_clip(&mut self, clip: Clip)
        ensures
            final(self).clips@ == old(self).clips@.insert(
                insert_position(old(self).clips@, clip.timeline_start),
                clip,
            ),
            final(self).id == old(self).id,
            final(self).name == old(self).name,
            final(self).kind == old(self).kind,
            final(self).muted == old(self).muted,
            final(self).solo == old(self).solo,
            final(self).locked == old(self).locked,
            final(self).level_bits == old(self).level_bits,
    {
        let mut pos: usize = 0;
        while pos < self.clips.len()
            invariant
                *self == *old(self),
                pos <= self.clips@.len(),
                forall|j: int|
                    0 <= j < pos ==> (#[trigger] self.clips@[j]).timeline_start.0
                        <= clip.timeline_start.0,
            ensures
                *self == *old(self),
                is_insert_position(self.clips@, clip.timeline_start, pos as int),
            decreases self.clips@.len() - pos,
        {
            if self.clips[pos].timeline_start.0 > clip.timeline_start.0 {
                break;
            }
            pos = pos + 1;
        }
        proof {
            lemma_insert_position_is(self.clips@, clip.timeline_start, pos as int);
        }
        self.clips.insert(pos, clip);
    }

    /// Reorder the clips by start time, keeping clips with equal start
    /// times in their current order.
    pub fn sort_clips_by_start(&mut self)
        ensures
            final(self).clips@ == sorted_by_insertion(old(self).clips@),
            final(self).id == old(self).id,
            final(self).name == old(self).name,
            final(self).kind == old(self).kind,
            final(self).muted == old(self).muted,
            final(self).solo == old(self).solo,
            final(self).locked == old(self).locked,
            final(self).level_bits == old(self).level_bits,
    {
        let mut old_clips: Vec<Clip> = Vec::new();
        std::mem::swap(&mut old_clips, &mut self.clips);
        let mut i: usize = 0;
        while i < old_clips.len()
            invariant
                i <= old_clips@.len(),
                old_clips@ == old(self).clips@,
                self.clips@ == sorted_by_insertion(old_clips@.take(i as int)),
                self.id == old(self).id,
                self.name == old(self).name,
                self.kind == old(self).kind,
                self.muted == old(self).muted,
                self.solo == old(self).solo,
                self.locked == old(self).locked,
                self.level_bits == old(self).level_bits,
            decreases old_clips@.len() - i,
        {
            proof {
                assert(old_clips@.take(i + 1).drop_last() =~= old_clips@.take(i as int));
            }
            let c = old_clips[i].clone();
            self.insert_clip(c);
            i = i + 1;
        }
        proof {
            assert(old_clips@.take(i as int) =~= old_clips@);
        }
    }

    /// Index of the first clip with id `id`.
    pub fn clip_index(&self, id: Id) -> (r: Option<usize>)
        ensures
            r is None <==> !has_clip_id(self.clips@, id),
            r matches Some(i) ==> is_first_with_id(self.clips@, id, i as int) && i
                == index_of_clip(self.clips@, id),
    {
        let mut i: usize = 0;
        while i < self.clips.len()
            invariant
                i <= self.clips@.len(),
                forall|j: int| 0 <= j < i ==> (#[trigger] self.clips@[j]).id != id,
            decreases self.clips@.len() - i,
        {
            if self.clips[i].id == id {
                proof {
                    lemma_index_of_clip_is(self.clips@, id, i as int);
                }
                return Some(i);
            }
            i = i + 1;
        }
        None
    }

    /// Remove the first clip with id `id` and return it.
    pub fn remove_clip(&mut self, id: Id) -> (r: Option<Clip>)
        ensures
            r is None <==> !has_clip_id(old(self).clips@, id),
            r is None ==> final(self).clips@ == old(self).clips@,
            r is Some ==> r == Some(old(self).clips@[index_of_clip(old(self).clips@, id)])
                && final(self).clips@ == old(self).clips@.remove(
                index_of_clip(old(self).clips@, id),
            ),
            final(self).id == old(self).id,
            final(self).name == old(self).name,
            final(self).kind == old(self).kind,
            final(self).muted == old(self).muted,
            final(self).solo == old(self).solo,
            final(self).locked == old(self).locked,
            final(self).level_bits == old(self).level_bits,
    {
        let mut i: usize = 0;
        while i < self.clips.len()
            invariant
                *self == *old(self),
                i <= self.clips@.len(),
                forall|j: int| 0 <= j < i ==> (#[trigger] self.clips@[j]).id != id,
            decreases self.clips@.len() - i,
        {
            if self.clips[i].id == id {
                proof {
                    lemma_index_of_clip_is(self.clips@, id, i as int);
                }
                let c = self.clips.remove(i);
                return Some(c);
            }
            i = i + 1;
        }
        None
    }
}

/// The index of the first clip covering `t` (meaningful when there is one).
pub open spec fn index_covering(clips: Seq<Clip>, t: TimeKey) -> int {
    choose|i: int| is_first_covering(clips, t, i)
}

proof fn lemma_index_covering_is(clips: Seq<Clip>, t: TimeKey, i: int)
    requires
        is_first_covering(clips, t, i),
    ensures
        index_covering(clips, t) == i,
{
    let k = index_covering(clips, t);
    if i < k {
        assert(!covers(clips[i], t));
    }
    if k < i {
        assert(!covers(clips[k], t));
    }
}

/// The tracks of kind `k`, in their order.
pub open spec fn tracks_of_kind(tracks: Seq<Track>, k: TrackKind) -> Seq<Track>
    decreases tracks.len(),
{
    if tracks.len() == 0 {
        Seq::empty()
    } else if tracks.last().kind == k {
        tracks_of_kind(tracks.drop_last(), k).push(tracks.last())
    } else {
        tracks_of_kind(tracks.drop_last(), k)
    }
}

/// Video tracks first, then audio tracks, each group in timeline order.
pub open spec fn top_to_bottom(tracks: Seq<Track>) -> Seq<Track> {
    tracks_of_kind(tracks, TrackKind::Video) + tracks_of_kind(tracks, TrackKind::Audio)
}

/// Whether some clip of `track` covers `t`.
pub open spec fn track_covers(track: Track, t: TimeKey) -> bool {
    exists|i: int| 0 <= i < track.clips@.len() && covers(#[trigger] track.clips@[i], t)
}

/// For each of `tracks` that has a clip covering `t`, the track and its
/// first such clip, in the order of `tracks`.
pub open spec fn active_in(tracks: Seq<Track>, t: TimeKey) -> Seq<(Track, Clip)>
    decreases tracks.len(),
{
    if tracks.len() == 0 {
        Seq::empty()
    } else if track_covers(tracks.last(), t) {
        active_in(tracks.drop_last(), t).push(
            (tracks.last(), tracks.last().clips@[index_covering(tracks.last().clips@, t)]),
        )
    } else {
        active_in(tracks.drop_last(), t)
    }
}

/// `i` is the first index whose track has id `id`.
pub open spec fn is_first_track(tracks: Seq<Track>, id: Id, i: int) -> bool {
    &&& 0 <= i < tracks.len()
    &&& tracks[i].id == id
    &&& forall|j: int| 0 <= j < i ==> (#[trigger] tracks[j]).id != id
}

/// `i` is the first index whose track holds a clip with id `clip_id`.
pub open spec fn is_first_track_with_clip(tracks: Seq<Track>, clip_id: Id, i: int) -> bool {
    &&& 0 <= i < tracks.len()
    &&& has_clip_id(tracks[i].clips@, clip_id)
    &&& forall|j: int| 0 <= j < i ==> !has_clip_id((#[trigger] tracks[j]).clips@, clip_id)
}

/// The latest end among the durations of `tracks`, or time zero.
pub open spec fn tracks_end(tracks: Seq<Track>) -> u64
    decreases tracks.len(),
{
    if tracks.len() == 0 {
        ZERO_KEY
    } else if tracks.len() == 1 {
        clips_end(tracks[0].clips@)
    } else {
        let rest = tracks_end(tracks.drop_last());
        if clips_end(tracks.last().clips@) >= rest {
            clips_end(tracks.last().clips@)
        } else {
            rest
        }
    }
}

/// The timeline: all tracks (video and audio) plus transitions.
#[derive(Clone, Debug)]
pub struct Timeline {
    pub tracks: Vec<Track>,
    pub transitions: Vec<Transition>,
}

impl Default for Timeline {
    fn default() -> (r: Timeline)
        ensures
            r.tracks@.len() == 0,
            r.transitions@.len() == 0,
    {
        Timeline { tracks: Vec::new(), transitions: Vec::new() }
    }
}

impl Timeline {
    /// A timeline with two video tracks ("V1", "V2") above two audio
    /// tracks ("A1", "A2"), with ids taken from `gen` in that order.
    pub fn with_default_tracks(gen: &mut IdGenerator) -> (r: Timeline)
        ensures
            r.tracks@.len() == 4,
            r.transitions@.len() == 0,
            r.tracks@[0].name@ == "V1"@,
            r.tracks@[1].name@ == "V2"@,
            r.tracks@[2].name@ == "A1"@,
            r.tracks@[3].name@ == "A2"@,
            r.tracks@[0].kind == TrackKind::Video,
            r.tracks@[1].kind == TrackKind::Video,
            r.tracks@[2].kind == TrackKind::Audio,
            r.tracks@[3].kind == TrackKind::Audio,
            forall|i: int| 0 <= i < 4 ==> (#[trigger] r.tracks@[i]).clips@.len() == 0,
            forall|i: int|
                0 <= i < 4 ==> !(#[trigger] r.tracks@[i]).locked && !r.tracks@[i].muted
                    && !r.tracks@[i].solo && r.tracks@[i].level_bits == FULL_LEVEL_BITS,
            r.tracks@[0].id.0 == crate::id::generated_id(old(gen).seed(), old(gen).counter()),
            r.tracks@[1].id.0 == crate::id::generated_id(
                old(gen).seed(),
                old(gen).counter().wrapping_add(1),
            ),
            r.tracks@[2].id.0 == crate::id::generated_id(
                old(gen).seed(),
                old(gen).counter().wrapping_add(1).wrapping_add(1),
            ),
            r.tracks@[3].id.0 == crate::id::generated_id(
                old(gen).seed(),
                old(gen).counter().wrapping_add(1).wrapping_add(1).wrapping_add(1),
            ),
            final(gen).seed() == old(gen).seed(),
            final(gen).counter() == old(gen).counter().wrapping_add(1).wrapping_add(
                1,
            ).wrapping_add(1).wrapping_add(1),
    {
        let mut t = Timeline::default();
        let id = gen.next();
        t.add_track(Track::new(id, "V1", TrackKind::Video));
        let id = gen.next();
        t.add_track(Track::new(id, "V2", TrackKind::Video));
        let id = gen.next();
        t.add_track(Track::new(id, "A1", TrackKind::Audio));
        let id = gen.next();
        t.add_track(Track::new(id, "A2", TrackKind::Audio));
        t
    }

    /// Append a track below the existing ones.
    pub fn add_track(&mut self, track: Track)
        ensures
            final(self).tracks@ == old(self).tracks@.push(track),
            final(self).transitions@ == old(self).transitions@,
    {
        self.tracks.push(track);
    }

    /// Index of the first track with id `id`.
    pub fn track_index(&self, id: Id) -> (r: Option<usize>)
        ensures
            r is None <==> forall|i: int|
                0 <= i < self.tracks@.len() ==> (#[trigger] self.tracks@[i]).id != id,
            r matches Some(i) ==> is_first_track(self.tracks@, id, i as int),
    {
        let mut i: usize = 0;
        while i < self.tracks.len()
            invariant
                i <= self.tracks@.len(),
                forall|j: int| 0 <= j < i ==> (#[trigger] self.tracks@[j]).id != id,
            decreases self.tracks@.len() - i,
        {
            if self.tracks[i].id == id {
                return Some(i);
            }
            i = i + 1;
        }
        None
    }

    /// The first track with id `id`.
    pub fn track(&self, id: Id) -> (r: Option<&Track>)
        ensures
            r is None <==> forall|i: int|
                0 <= i < self.tracks@.len() ==> (#[trigger] self.tracks@[i]).id != id,
            r matches Some(t) ==> exists|i: int|
                is_first_track(self.tracks@, id, i) && self.tracks@[i] == *t,
    {
        match self.track_index(id) {
            Some(i) => Some(&self.tracks[i]),
            None => None,
        }
    }

    /// Index of the first track that holds a clip with id `clip_id`.
    pub fn track_index_of_clip(&self, clip_id: Id) -> (r: Option<usize>)
        ensures
            r is None <==> forall|i: int|
                0 <= i < self.tracks@.len() ==> !has_clip_id(
                    (#[trigger] self.tracks@[i]).clips@,
                    clip_id,
                ),
            r matches Some(i) ==> is_first_track_with_clip(self.tracks@, clip_id, i as int),
    {
        let mut i: usize = 0;
        while i < self.tracks.len()
            invariant
                i <= self.tracks@.len(),
                forall|j: int|
                    0 <= j < i ==> !has_clip_id((#[trigger] self.tracks@[j]).clips@, clip_id),
            decreases self.tracks@.len() - i,
        {
            let track = &self.tracks[i];
            let mut k: usize = 0;
            while k < track.clips.len()
                invariant
                    i < self.tracks@.len(),
                    *track == self.tracks@[i as int],
                    forall|j: int|
                        0 <= j < i ==> !has_clip_id((#[trigger] self.tracks@[j]).clips@, clip_id),
                    k <= track.clips@.len(),
                    forall|j: int| 0 <= j < k ==> (#[trigger] track.clips@[j]).id != clip_id,
                decreases track.clips@.len() - k,
            {
                if track.clips[k].id == clip_id {
                    assert(track.clips@[k as int].id == clip_id);
                    return Some(i);
                }
                k = k + 1;
            }
            i = i + 1;
        }
        None
    }

    /// The id of the first track that holds a clip with id `clip_id`.
    pub fn track_of_clip(&self, clip_id: Id) -> (r: Option<Id>)
        ensures
            r is None <==> forall|i: int|
                0 <= i < self.tracks@.len() ==> !has_clip_id(
                    (#[trigger] self.tracks@[i]).clips@,
                    clip_id,
                ),
            r matches Some(id) ==> exists|i: int|
                is_first_track_with_clip(self.tracks@, clip_id, i) && self.tracks@[i].id == id,
    {
        match self.track_index_of_clip(clip_id) {
            Some(i) => Some(self.tracks[i].id),
            None => None,
        }
    }

    /// The clip with id `id`, with the track that holds it: the first
    /// track holding such a clip, and the first such clip in it.
    pub fn clip(&self, id: Id) -> (r: Option<(&Track, &Clip)>)
        ensures
            r is None <==> forall|i: int|
                0 <= i < self.tracks@.len() ==> !has_clip_id(
                    (#[trigger] self.tracks@[i]).clips@,
                    id,
                ),
            r matches Some(p) ==> exists|i: int, k: int|
                is_first_track_with_clip(self.tracks@, id, i) && self.tracks@[i] == *p.0
                    && is_first_with_id(self.tracks@[i].clips@, id, k) && self.tracks@[i].clips@[k]
                    == *p.1,
    {
        match self.track_index_of_clip(id) {
            Some(i) => {
                let track = &self.tracks[i];
                let mut k: usize = 0;
                while k < track.clips.len()
                    invariant
                        is_first_track_with_clip(self.tracks@, id, i as int),
                        *track == self.tracks@[i as int],
                        k <= track.clips@.len(),
                        has_clip_id(track.clips@, id),
                        forall|j: int| 0 <= j < k ==> (#[trigger] track.clips@[j]).id != id,
                    decreases track.clips@.len() - k,
                {
                    if track.clips[k].id == id {
                        assert(is_first_with_id(self.tracks@[i as int].clips@, id, k as int));
                        return Some((track, &track.clips[k]));
                    }
                    k = k + 1;
                }
                None
            },
            None => None,
        }
    }

    /// End time of the latest-ending clip across all tracks; time zero
    /// for a timeline without clips.
    pub fn duration(&self) -> (r: TimeKey)
        ensures
            r.0 == tracks_end(self.tracks@),
    {
        if self.tracks.len() == 0 {
            return TimeKey::zero();
        }
        let mut best = self.tracks[0].duration();
        let mut i: usize = 1;
        proof {
            assert(self.tracks@.take(1).drop_last() =~= Seq::<Track>::empty());
        }
        while i < self.tracks.len()
            invariant
                1 <= i <= self.tracks@.len(),
                best.0 == tracks_end(self.tracks@.take(i as int)),
            decreases self.tracks@.len() - i,
        {
            proof {
                assert(self.tracks@.take(i + 1).drop_last() =~= self.tracks@.take(i as int));
            }
            let d = self.tracks[i].duration();
            if d.0 >= best.0 {
                best = d;
            }
            i = i + 1;
        }
        proof {
            assert(self.tracks@.take(i as int) =~= self.tracks@);
        }
        best
    }

    /// Tracks in display order: video tracks first, then audio tracks,
    /// each group in timeline order.
    pub fn tracks_top_to_bottom(&self) -> (r: Vec<&Track>)
        ensures
            r@.len() == top_to_bottom(self.tracks@).len(),
            forall|i: int| 0 <= i < r@.len() ==> *r@[i] == top_to_bottom(self.tracks@)[i],
    {
        let mut video: Vec<&Track> = Vec::new();
        let mut audio: Vec<&Track> = Vec::new();
        let mut i: usize = 0;
        while i < self.tracks.len()
            invariant
                i <= self.tracks@.len(),
                video@.len() == tracks_of_kind(self.tracks@.take(i as int), TrackKind::Video).len(),
                forall|j: int|
                    0 <= j < video@.len() ==> *video@[j] == tracks_of_kind(
                        self.tracks@.take(i as int),
                        TrackKind::Video,
                    )[j],
                audio@.len() == tracks_of_kind(self.tracks@.take(i as int), TrackKind::Audio).len(),
                forall|j: int|
                    0 <= j < audio@.len() ==> *audio@[j] == tracks_of_kind(
                        self.tracks@.take(i as int),
                        TrackKind::Audio,
                    )[j],
            decreases self.tracks@.len() - i,
        {
            proof {
                assert(self.tracks@.take(i + 1).drop_last() =~= self.tracks@.take(i as int));
            }
            let t = &self.tracks[i];
            match t.kind {
                TrackKind::Video => video.push(t),
                TrackKind::Audio => audio.push(t),
            }
            i = i + 1;
        }
        proof {
            assert(self.tracks@.take(i as int) =~= self.tracks@);
        }
        let ghost v_len = video@.len();
        let ghost old_video = video@;
        let mut k: usize = 0;
        while k < audio.len()
            invariant
                k <= audio@.len(),
                video@.len() == v_len + k,
                v_len == tracks_of_kind(self.tracks@, TrackKind::Video).len(),
                old_video.len() == v_len,
                forall|j: int| 0 <= j < v_len ==> video@[j] == old_video[j],
                forall|j: int|
                    0 <= j < v_len ==> *old_video[j] == tracks_of_kind(
                        self.tracks@,
                        TrackKind::Video,
                    )[j],
                forall|j: int| 0 <= j < k ==> video@[v_len + j] == audio@[j],
                audio@.len() == tracks_of_kind(self.tracks@, TrackKind::Audio).len(),
                forall|j: int|
                    0 <= j < audio@.len() ==> *audio@[j] == tracks_of_kind(
                        self.tracks@,
                        TrackKind::Audio,
                    )[j],
            decreases audio@.len() - k,
        {
            video.push(audio[k]);
            k = k + 1;
        }
        proof {
            let tt = top_to_bottom(self.tracks@);
            assert forall|i: int| 0 <= i < video@.len() implies *video@[i] == tt[i] by {
                let va = tracks_of_kind(self.tracks@, TrackKind::Video);
                let au = tracks_of_kind(self.tracks@, TrackKind::Audio);
                assert(tt == va + au);
                assert(video@.len() == va.len() + au.len());
                if i >= v_len {
                    assert(video@[v_len + (i - v_len)] == audio@[i - v_len]);
                    assert(*audio@[i - v_len] == au[i - v_len]);
                    assert(tt[i] == au[i - v_len]);
                } else {
                    assert(video@[i] == old_video[i]);
                    assert(*old_video[i] == va[i]);
                    assert(tt[i] == va[i]);
                }
            }
        }
        video
    }

    /// The clips active at time `t`, with their tracks, in display order:
    /// for each track (video first, then audio) that has a clip covering
    /// `t`, its first such clip.
    pub fn active_clips_at(&self, t: TimeKey) -> (r: Vec<(&Track, &Clip)>)
        ensures
            r@.len() == active_in(top_to_bottom(self.tracks@), t).len(),
            forall|i: int|
                0 <= i < r@.len() ==> *r@[i].0 == active_in(top_to_bottom(self.tracks@), t)[i].0
                    && *r@[i].1 == active_in(top_to_bottom(self.tracks@), t)[i].1,
    {
        let order = self.tracks_top_to_bottom();
        let ghost tt = top_to_bottom(self.tracks@);
        let mut out: Vec<(&Track, &Clip)> = Vec::new();
        let mut i: usize = 0;
        while i < order.len()
            invariant
                i <= order@.len(),
                order@.len() == tt.len(),
                forall|j: int| 0 <= j < order@.len() ==> *order@[j] == tt[j],
                out@.len() == active_in(tt.take(i as int), t).len(),
                forall|j: int|
                    0 <= j < out@.len() ==> *out@[j].0 == active_in(tt.take(i as int), t)[j].0
                        && *out@[j].1 == active_in(tt.take(i as int), t)[j].1,
            decreases order@.len() - i,
        {
            proof {
                assert(tt.take(i + 1).drop_last() =~= tt.take(i as int));
                assert(tt.take(i + 1).last() == tt[i as int]);
            }
            let track = order[i];
            match track.clip_index_at(t) {
                Some(k) => {
                    proof {
                        lemma_index_covering_is(track.clips@, t, k as int);
                        assert(covers(track.clips@[k as int], t));
                    }
                    out.push((track, &track.clips[k]));
                },
                None => {},
            }
            i = i + 1;
        }
        proof {
            assert(tt.take(i as int) =~= tt);
        }
        out
    }

    /// The first track with id `id`, for editing.
    pub fn track_mut(&mut self, id: Id) -> (r: Option<&mut Track>)
        ensures
            r is None <==> forall|i: int|
                0 <= i < old(self).tracks@.len() ==> (#[trigger] old(self).tracks@[i]).id != id,
            r is None ==> *final(self) == *old(self),
            r matches Some(t) ==> exists|i: int|
                is_first_track(old(self).tracks@, id, i) && *t == old(self).tracks@[i]
                    && final(self).tracks@ == old(self).tracks@.update(i, *final(t))
                    && final(self).transitions@ == old(self).transitions@,
    {
        match self.track_index(id) {
            Some(i) => Some(&mut self.tracks[i]),
            None => None,
        }
    }
}

pub proof fn lemma_insert_position_exists(clips: Seq<Clip>, start: TimeKey)
    ensures
        is_insert_position(clips, start, insert_position(clips, start)),
    decreases clips.len(),
{
    if clips.len() == 0 {
        assert(is_insert_position(clips, start, 0));
    } else {
        let rest = clips.drop_last();
        lemma_insert_position_exists(rest, start);
        let q = insert_position(rest, start);
        assert forall|j: int| 0 <= j < rest.len() implies #[trigger] clips[j] == rest[j] by {}
        assert forall|j: int| 0 <= j < q implies (#[trigger] clips[j]).timeline_start.0 <= start.0 by {
            assert(rest[j].timeline_start.0 <= start.0);
        }
        if q < rest.len() {
            assert(is_insert_position(clips, start, q));
        } else if clips.last().timeline_start.0 > start.0 {
            assert(is_insert_position(clips, start, clips.len() - 1));
        } else {
            assert(is_insert_position(clips, start, clips.len() as int));
        }
    }
}

/// Inserting a clip keeps a track ordered by start time.
pub proof fn lemma_insert_keeps_sorted(clips: Seq<Clip>, c: Clip)
    requires
        sorted_by_start(clips),
    ensures
        sorted_by_start(clips.insert(insert_position(clips, c.timeline_start), c)),
{
    lemma_insert_position_exists(clips, c.timeline_start);
    let p = insert_position(clips, c.timeline_start);
    let s = clips.insert(p, c);
    assert forall|i: int, j: int| 0 <= i < j < s.len() implies s[i].timeline_start.0
        <= s[j].timeline_start.0 by {
        if i < p && j == p {
            assert(clips[i].timeline_start.0 <= c.timeline_start.0);
        } else if i == p && j > p {
            assert(clips[p].timeline_start.0 > c.timeline_start.0);
            assert(clips[p].timeline_start.0 <= clips[j - 1].timeline_start.0);
        } else if i < p && j > p {
            assert(clips[i].timeline_start.0 <= clips[j - 1].timeline_start.0);
        }
    }
}

/// Removing a clip just inserted into a track that held no clip with its
/// id gives the inserted clip back and leaves the track as it was.
pub proof fn lemma_remove_undoes_insert(clips: Seq<Clip>, c: Clip)
    requires
        !has_clip_id(clips, c.id),
    ensures
        ({
            let s = clips.insert(insert_position(clips, c.timeline_start), c);
            &&& has_clip_id(s, c.id)
            &&& s[index_of_clip(s, c.id)] == c
            &&& s.remove(index_of_clip(s, c.id)) == clips
        }),
{
    lemma_insert_position_exists(clips, c.timeline_start);
    let p = insert_position(clips, c.timeline_start);
    let s = clips.insert(p, c);
    assert forall|j: int| 0 <= j < p implies (#[trigger] s[j]).id != c.id by {
        assert(s[j] == clips[j]);
        if clips[j].id == c.id {
            assert(has_clip_id(clips, c.id));
        }
    }
    assert(is_first_with_id(s, c.id, p));
    lemma_index_of_clip_is(s, c.id, p);
    assert(s.remove(p) =~= clips);
}

/// Inserting the clip just removed from an ordered track restores the
/// track, when no clip after it starts at the same time.
pub proof fn lemma_insert_undoes_remove(clips: Seq<Clip>, id: Id)
    requires
        sorted_by_start(clips),
        has_clip_id(clips, id),
        forall|j: int|
            index_of_clip(clips, id) < j < clips.len() ==> (#[trigger] clips[j]).timeline_start
                != clips[index_of_clip(clips, id)].timeline_start,
    ensures
        ({
            let i = index_of_clip(clips, id);
            let c = clips[i];
            let s = clips.remove(i);
            s.insert(insert_position(s, c.timeline_start), c) == clips
        }),
{
    let w = choose|w: int| 0 <= w < clips.len() && (#[trigger] clips[w]).id == id;
    lemma_first_with_id_exists(clips, id, w);
    let i = index_of_clip(clips, id);
    let c = clips[i];
    let s = clips.remove(i);
    assert forall|j: int| 0 <= j < i implies (#[trigger] s[j]).timeline_start.0 <= c.timeline_start.0 by {
        assert(s[j] == clips[j]);
    }
    if i < s.len() {
        assert(s[i] == clips[i + 1]);
        assert(clips[i + 1].timeline_start != c.timeline_start);
    }
    assert(is_insert_position(s, c.timeline_start, i));
    lemma_insert_position_is(s, c.timeline_start, i);
    assert(s.insert(i, c) =~= clips);
}

pub proof fn lemma_first_with_id_exists(clips: Seq<Clip>, id: Id, w: int)
    requires
        0 <= w < clips.len(),
        clips[w].id == id,
    ensures
        is_first_with_id(clips, id, index_of_clip(clips, id)),
    decreases w,
{
    if forall|j: int| 0 <= j < w ==> (#[trigger] clips[j]).id != id {
        assert(is_first_with_id(clips, id, w));
    } else {
        let v = choose|j: int| 0 <= j < w && (#[trigger] clips[j]).id == id;
        lemma_first_with_id_exists(clips, id, v);
    }
}

/// What a track holds, as mathematical values.
pub struct TrackView {
    pub id: Id,
    pub name: Seq<char>,
    pub kind: TrackKind,
    pub muted: bool,
    pub solo: bool,
    pub locked: bool,
    pub level_bits: u32,
    pub clips: Seq<Clip>,
}

impl View for Track {
    type V = TrackView;

    open spec fn view(&self) -> TrackView {
        TrackView {
            id: self.id,
            name: self.name@,
            kind: self.kind,
            muted: self.muted,
            solo: self.solo,
            locked: self.locked,
            level_bits: self.level_bits,
            clips: self.clips@,
        }
    }
}

/// What a timeline holds, as mathematical values.
pub struct TimelineView {
    pub tracks: Seq<TrackView>,
    pub transitions: Seq<Transition>,
}

impl View for Timeline {
    type V = TimelineView;

    open spec fn view(&self) -> TimelineView {
        TimelineView {
            tracks: self.tracks@.map_values(|t: Track| t@),
            transitions: self.transitions@,
        }
    }
}

/// `i` is the first index of `tracks` with id `id`.
pub open spec fn is_first_track_view(tracks: Seq<TrackView>, id: Id, i: int) -> bool {
    &&& 0 <= i < tracks.len()
    &&& tracks[i].id == id
    &&& forall|j: int| 0 <= j < i ==> (#[trigger] tracks[j]).id != id
}

/// Whether some track has id `id`.
pub open spec fn has_track(tracks: Seq<TrackView>, id: Id) -> bool {
    exists|i: int| 0 <= i < tracks.len() && (#[trigger] tracks[i]).id == id
}

/// Index of the first track with id `id` (meaningful when there is one).
pub open spec fn track_position(tracks: Seq<TrackView>, id: Id) -> int {
    choose|i: int| is_first_track_view(tracks, id, i)
}

/// The timeline after inserting `clip` into the first track with id
/// `track_id`; unchanged when there is no such track.
pub open spec fn with_clip_added(v: TimelineView, track_id: Id, clip: Clip) -> TimelineView {
    if has_track(v.tracks, track_id) {
        let i = track_position(v.tracks, track_id);
        let t = v.tracks[i];
        TimelineView {
            tracks: v.tracks.update(
                i,
                TrackView {
                    clips: t.clips.insert(insert_position(t.clips, clip.timeline_start), clip),
                    ..t
                },
            ),
            ..v
        }
    } else {
        v
    }
}

/// The timeline after removing the first clip with id `clip_id` from the
/// first track with id `track_id`; unchanged when there is no such track
/// or no such clip in it.
pub open spec fn with_clip_removed(v: TimelineView, track_id: Id, clip_id: Id) -> TimelineView {
    if has_track(v.tracks, track_id) && has_clip_id(
        v.tracks[track_position(v.tracks, track_id)].clips,
        clip_id,
    ) {
        let i = track_position(v.tracks, track_id);
        let t = v.tracks[i];
        TimelineView {
            tracks: v.tracks.update(
                i,
                TrackView { clips: t.clips.remove(index_of_clip(t.clips, clip_id)), ..t },
            ),
            ..v
        }
    } else {
        v
    }
}

pub proof fn lemma_track_position_is(tracks: Seq<TrackView>, id: Id, i: int)
    requires
        is_first_track_view(tracks, id, i),
    ensures
        track_position(tracks, id) == i,
{
    let k = track_position(tracks, id);
    if i < k {
        assert(tracks[i].id != id);
    }
    if k < i {
        assert(tracks[k].id != id);
    }
}

/// The view of the first track with a given id is the first track view
/// with that id.
pub proof fn lemma_first_track_view(tl: Timeline, id: Id, i: int)
    requires
        is_first_track(tl.tracks@, id, i),
    ensures
        has_track(tl@.tracks, id),
        track_position(tl@.tracks, id) == i,
        tl@.tracks[i] == tl.tracks@[i]@,
{
    assert forall|j: int| 0 <= j < i implies (#[trigger] tl@.tracks[j]).id != id by {
        assert(tl@.tracks[j] == tl.tracks@[j]@);
    }
    assert(tl@.tracks[i] == tl.tracks@[i]@);
    assert(is_first_track_view(tl@.tracks, id, i));
    lemma_track_position_is(tl@.tracks, id, i);
}

pub proof fn lemma_no_track_view(tl: Timeline, id: Id)
    requires
        forall|i: int| 0 <= i < tl.tracks@.len() ==> (#[trigger] tl.tracks@[i]).id != id,
    ensures
        !has_track(tl@.tracks, id),
{
    assert forall|j: int| 0 <= j < tl@.tracks.len() implies (#[trigger] tl@.tracks[j]).id != id by {
        assert(tl@.tracks[j] == tl.tracks@[j]@);
    }
}

/// Removing a clip just added to a track that held no clip with its id
/// restores the timeline.
pub proof fn lemma_added_clip_removed(v: TimelineView, track_id: Id, clip: Clip)
    requires
        has_track(v.tracks, track_id) ==> !has_clip_id(
            v.tracks[track_position(v.tracks, track_id)].clips,
            clip.id,
        ),
    ensures
        with_clip_removed(with_clip_added(v, track_id, clip), track_id, clip.id) == v,
{
    if has_track(v.tracks, track_id) {
        let w = choose|w: int| 0 <= w < v.tracks.len() && (#[trigger] v.tracks[w]).id == track_id;
        lemma_first_track_view_exists(v.tracks, track_id, w);
        let i = track_position(v.tracks, track_id);
        let t = v.tracks[i];
        lemma_remove_undoes_insert(t.clips, clip);
        let a = with_clip_added(v, track_id, clip);
        assert(is_first_track_view(a.tracks, track_id, i));
        lemma_track_position_is(a.tracks, track_id, i);
        assert(a.tracks[i].clips == t.clips.insert(insert_position(t.clips, clip.timeline_start), clip));
        let r = with_clip_removed(a, track_id, clip.id);
        assert(r.tracks[i] == t);
        assert(r.tracks =~= v.tracks);
    }
}

/// Adding back a clip just removed from an ordered track restores the
/// timeline, when no clip after it in that track starts at the same time.
pub proof fn lemma_removed_clip_added(v: TimelineView, track_id: Id, clip: Clip)
    requires
        has_track(v.tracks, track_id),
        ({
            let clips = v.tracks[track_position(v.tracks, track_id)].clips;
            &&& sorted_by_start(clips)
            &&& has_clip_id(clips, clip.id)
            &&& clips[index_of_clip(clips, clip.id)] == clip
            &&& forall|j: int|
                index_of_clip(clips, clip.id) < j < clips.len()
                    ==> (#[trigger] clips[j]).timeline_start != clip.timeline_start
        }),
    ensures
        with_clip_added(with_clip_removed(v, track_id, clip.id), track_id, clip) == v,
{
    let w = choose|w: int| 0 <= w < v.tracks.len() && (#[trigger] v.tracks[w]).id == track_id;
    lemma_first_track_view_exists(v.tracks, track_id, w);
    let i = track_position(v.tracks, track_id);
    let t = v.tracks[i];
    lemma_insert_undoes_remove(t.clips, clip.id);
    let r = with_clip_removed(v, track_id, clip.id);
    assert(is_first_track_view(r.tracks, track_id, i));
    lemma_track_position_is(r.tracks, track_id, i);
    let a = with_clip_added(r, track_id, clip);
    assert(a.tracks[i] == t);
    assert(a.tracks =~= v.tracks);
}

pub proof fn lemma_first_track_view_exists(tracks: Seq<TrackView>, id: Id, w: int)
    requires
        0 <= w < tracks.len(),
        tracks[w].id == id,
    ensures
        is_first_track_view(tracks, id, track_position(tracks, id)),
    decreases w,
{
    if forall|j: int| 0 <= j < w ==> (#[trigger] tracks[j]).id != id {
        assert(is_first_track_view(tracks, id, w));
    } else {
        let v = choose|j: int| 0 <= j < w && (#[trigger] tracks[j]).id == id;
        lemma_first_track_view_exists(tracks, id, v);
    }
}

impl Timeline {
    /// Insert `clip` into the first track with id `track_id`; returns
    /// whether there was such a track.
    pub fn add_clip_to_track(&mut self, track_id: Id, clip: Clip) -> (r: bool)
        ensures
            final(self)@ == with_clip_added(old(self)@, track_id, clip),
            r == has_track(old(self)@.tracks, track_id),
    {
        let ghost old_tl = *self;
        match self.track_mut(track_id) {
            Some(track) => {
                track.insert_clip(clip);
                proof {
                    let i = choose|i: int|
                        is_first_track(old_tl.tracks@, track_id, i) && final(self).tracks@
                            == old_tl.tracks@.update(i, *final(track));
                    lemma_first_track_view(old_tl, track_id, i);
                    assert(final(self)@.tracks =~= with_clip_added(old_tl@, track_id, clip).tracks);
                }
                true
            },
            None => {
                proof {
                    lemma_no_track_view(old_tl, track_id);
                }
                false
            },
        }
    }

    /// Remove the first clip with id `clip_id` from the first track with
    /// id `track_id`; returns whether there was such a track.
    pub fn remove_clip_from_track(&mut self, track_id: Id, clip_id: Id) -> (r: bool)
        ensures
            final(self)@ == with_clip_removed(old(self)@, track_id, clip_id),
            r == has_track(old(self)@.tracks, track_id),
    {
        let ghost old_tl = *self;
        match self.track_mut(track_id) {
            Some(track) => {
                let _ = track.remove_clip(clip_id);
                proof {
                    let i = choose|i: int|
                        is_first_track(old_tl.tracks@, track_id, i) && final(self).tracks@
                            == old_tl.tracks@.update(i, *final(track));
                    lemma_first_track_view(old_tl, track_id, i);
                    assert(final(self)@.tracks =~= with_clip_removed(
                        old_tl@,
                        track_id,
                        clip_id,
                    ).tracks);
                }
                true
            },
            None => {
                proof {
                    lemma_no_track_view(old_tl, track_id);
                }
                false
            },
        }
    }
}

/// The clips of `s` put in order of start time one by one, each after
/// the clips already placed that start no later: a stable sort.
pub open spec fn sorted_by_insertion(s: Seq<Clip>) -> Seq<Clip>
    decreases s.len(),
{
    if s.len() == 0 {
        s
    } else {
        let r = sorted_by_insertion(s.drop_last());
        r.insert(insert_position(r, s.last().timeline_start), s.last())
    }
}

/// Sorting leaves the clips ordered by start time, keeps their number, and
/// leaves clips that are already in order as they are.
pub proof fn lemma_sort_orders(s: Seq<Clip>)
    ensures
        sorted_by_start(sorted_by_insertion(s)),
        sorted_by_insertion(s).len() == s.len(),
        sorted_by_start(s) ==> sorted_by_insertion(s) == s,
    decreases s.len(),
{
    if s.len() > 0 {
        let rest = s.drop_last();
        lemma_sort_orders(rest);
        let r = sorted_by_insertion(rest);
        lemma_insert_keeps_sorted(r, s.last());
        lemma_insert_position_exists(r, s.last().timeline_start);
        if sorted_by_start(s) {
            assert(sorted_by_start(rest));
            assert(is_insert_position(r, s.last().timeline_start, r.len() as int));
            lemma_insert_position_is(r, s.last().timeline_start, r.len() as int);
            assert(r.insert(r.len() as int, s.last()) =~= s);
        }
    }
}

/// The duration of a track is the end of its latest-ending clip: no clip
/// ends later, and some clip ends then.
pub proof fn lemma_clips_end_bounds(clips: Seq<Clip>)
    requires
        clips.len() > 0,
    ensures
        forall|i: int| 0 <= i < clips.len() ==> (#[trigger] clips[i]).timeline_end.0 <= clips_end(clips),
        exists|i: int| 0 <= i < clips.len() && (#[trigger] clips[i]).timeline_end.0 == clips_end(clips),
    decreases clips.len(),
{
    if clips.len() > 1 {
        let rest = clips.drop_last();
        lemma_clips_end_bounds(rest);
        assert forall|i: int| 0 <= i < clips.len() implies (#[trigger] clips[i]).timeline_end.0
            <= clips_end(clips) by {
            if i < rest.len() {
                assert(rest[i] == clips[i]);
            }
        }
        if clips.last().timeline_end.0 >= clips_end(rest) {
            assert(clips[clips.len() - 1].timeline_end.0 == clips_end(clips));
        } else {
            let k = choose|k: int| 0 <= k < rest.len() && (#[trigger] rest[k]).timeline_end.0 == clips_end(rest);
            assert(clips[k] == rest[k]);
        }
    } else {
        assert(clips[0].timeline_end.0 == clips_end(clips));
    }
}

/// The duration of a timeline is the latest of its tracks' durations: no
/// track ends later, and, when there are tracks, some track ends then.
pub proof fn lemma_tracks_end_bounds(tracks: Seq<Track>)
    ensures
        forall|i: int|
            0 <= i < tracks.len() ==> clips_end((#[trigger] tracks[i]).clips@) <= tracks_end(tracks),
        tracks.len() > 0 ==> exists|i: int|
            0 <= i < tracks.len() && clips_end((#[trigger] tracks[i]).clips@) == tracks_end(tracks),
        tracks.len() == 0 ==> tracks_end(tracks) == ZERO_KEY,
    decreases tracks.len(),
{
    if tracks.len() > 1 {
        let rest = tracks.drop_last();
        lemma_tracks_end_bounds(rest);
        assert forall|i: int| 0 <= i < tracks.len() implies clips_end(
            (#[trigger] tracks[i]).clips@,
        ) <= tracks_end(tracks) by {
            if i < rest.len() {
                assert(rest[i] == tracks[i]);
            }
        }
        if clips_end(tracks.last().clips@) >= tracks_end(rest) {
            assert(clips_end(tracks[tracks.len() - 1].clips@) == tracks_end(tracks));
        } else {
            let k = choose|k: int|
                0 <= k < rest.len() && clips_end((#[trigger] rest[k]).clips@) == tracks_end(rest);
            assert(tracks[k] == rest[k]);
        }
    } else if tracks.len() == 1 {
        assert(clips_end(tracks[0].clips@) == tracks_end(tracks));
    }
}

} // verus!
