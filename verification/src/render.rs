//! Which clips feed a rendered frame or an audio mix.

use crate::time::TimeKey;
use crate::timeline::{active_in, top_to_bottom, Clip, Timeline, Track, TrackKind};
use vstd::prelude::*;

verus! {

/// Of `active` (pairs of a track and its active clip), those on tracks of
/// kind `kind` where neither the track nor the clip is muted, in order.
pub open spec fn contributing(active: Seq<(Track, Clip)>, kind: TrackKind) -> Seq<(Track, Clip)>
    decreases active.len(),
{
    if active.len() == 0 {
        Seq::empty()
    } else {
        let rest = contributing(active.drop_last(), kind);
        let (tr, c) = active.last();
        if tr.kind == kind && !tr.muted && !c.muted {
            rest.push(active.last())
        } else {
            rest
        }
    }
}

/// The clips that feed the output of tracks of kind `kind` at time `t`:
/// the clips active at `t`, in display order, without those of other
/// kinds of track and those muted themselves or on a muted track.
pub fn contributing_clips(timeline: &Timeline, t: TimeKey, kind: TrackKind) -> (r: Vec<
    (&Track, &Clip),
>)
    ensures
        r@.len() == contributing(active_in(top_to_bottom(timeline.tracks@), t), kind).len(),
        forall|i: int|
            0 <= i < r@.len() ==> *r@[i].0 == contributing(
                active_in(top_to_bottom(timeline.tracks@), t),
                kind,
            )[i].0 && *r@[i].1 == contributing(
                active_in(top_to_bottom(timeline.tracks@), t),
                kind,
            )[i].1,
        forall|i: int|
            0 <= i < r@.len() ==> !(#[trigger] r@[i]).1.muted && !r@[i].0.muted && r@[i].0.kind
                == kind,
{
    let active = timeline.active_clips_at(t);
    let ghost a = active_in(top_to_bottom(timeline.tracks@), t);
    let mut out: Vec<(&Track, &Clip)> = Vec::new();
    let mut i: usize = 0;
    while i < active.len()
        invariant
            i <= active@.len(),
            active@.len() == a.len(),
            forall|j: int| 0 <= j < a.len() ==> *active@[j].0 == a[j].0 && *active@[j].1 == a[j].1,
            out@.len() == contributing(a.take(i as int), kind).len(),
            forall|j: int|
                0 <= j < out@.len() ==> *out@[j].0 == contributing(a.take(i as int), kind)[j].0
                    && *out@[j].1 == contributing(a.take(i as int), kind)[j].1,
        decreases active@.len() - i,
    {
        proof {
            assert(a.take(i + 1).drop_last() =~= a.take(i as int));
        }
        let (track, clip) = active[i];
        if track.kind == kind && !track.muted && !clip.muted {
            out.push((track, clip));
        }
        i = i + 1;
    }
    proof {
        assert(a.take(i as int) =~= a);
        lemma_contributing_exact(a, kind);
        assert forall|j: int| 0 <= j < out@.len() implies !(#[trigger] out@[j]).1.muted
            && !out@[j].0.muted && out@[j].0.kind == kind by {
            assert(*out@[j].1 == contributing(a, kind)[j].1);
        }
    }
    out
}

/// The video clips to paint for the frame at `t`, in painting order: the
/// contributing clips from the lowest track up, so that the topmost
/// track's clip is painted last and shows over the others.
pub fn video_paint_order(timeline: &Timeline, t: TimeKey) -> (r: Vec<(&Track, &Clip)>)
    ensures
        r@.len() == contributing(active_in(top_to_bottom(timeline.tracks@), t), TrackKind::Video).len(),
        forall|i: int|
            0 <= i < r@.len() ==> {
                let c = contributing(active_in(top_to_bottom(timeline.tracks@), t), TrackKind::Video);
                *(#[trigger] r@[i]).0 == c[c.len() - 1 - i].0 && *r@[i].1 == c[c.len() - 1 - i].1
            },
        forall|i: int|
            0 <= i < r@.len() ==> !(#[trigger] r@[i]).1.muted && !r@[i].0.muted && r@[i].0.kind
                == TrackKind::Video,
{
    let top = contributing_clips(timeline, t, TrackKind::Video);
    let ghost c = contributing(active_in(top_to_bottom(timeline.tracks@), t), TrackKind::Video);
    let mut out: Vec<(&Track, &Clip)> = Vec::new();
    let mut k: usize = top.len();
    while k > 0
        invariant
            k <= top@.len(),
            top@.len() == c.len(),
            forall|j: int| 0 <= j < c.len() ==> *(#[trigger] top@[j]).0 == c[j].0 && *top@[j].1 == c[j].1,
            out@.len() == top@.len() - k,
            forall|j: int|
                0 <= j < out@.len() ==> *(#[trigger] out@[j]).0 == c[c.len() - 1 - j].0 && *out@[j].1
                    == c[c.len() - 1 - j].1,
        decreases k,
    {
        k = k - 1;
        out.push(top[k]);
    }
    proof {
        lemma_contributing_exact(
            active_in(top_to_bottom(timeline.tracks@), t),
            TrackKind::Video,
        );
        assert forall|j: int| 0 <= j < out@.len() implies !(#[trigger] out@[j]).1.muted
            && !out@[j].0.muted && out@[j].0.kind == TrackKind::Video by {
            assert(*out@[j].1 == c[c.len() - 1 - j].1);
        }
    }
    out
}

/// The clips that feed an output of kind `kind` are exactly the active
/// clips on tracks of that kind where neither the track nor the clip is
/// muted: each result is such a pair taken from `active`, no such pair is
/// left out, and no muted clip or muted track ever contributes.
pub proof fn lemma_contributing_exact(active: Seq<(Track, Clip)>, kind: TrackKind)
    ensures
        forall|i: int|
            0 <= i < contributing(active, kind).len() ==> {
                let (tr, c) = #[trigger] contributing(active, kind)[i];
                &&& !c.muted
                &&& !tr.muted
                &&& tr.kind == kind
                &&& active.contains((tr, c))
            },
        forall|j: int|
            0 <= j < active.len() && (#[trigger] active[j]).0.kind == kind && !active[j].0.muted
                && !active[j].1.muted ==> contributing(active, kind).contains(active[j]),
    decreases active.len(),
{
    if active.len() > 0 {
        let rest = active.drop_last();
        lemma_contributing_exact(rest, kind);
        let r = contributing(rest, kind);
        let all = contributing(active, kind);
        assert forall|i: int| 0 <= i < all.len() implies {
            let (tr, c) = #[trigger] all[i];
            &&& !c.muted
            &&& !tr.muted
            &&& tr.kind == kind
            &&& active.contains((tr, c))
        } by {
            if i < r.len() {
                assert(all[i] == r[i]);
                let w = choose|w: int| 0 <= w < rest.len() && rest[w] == r[i];
                assert(active[w] == rest[w]);
            } else {
                assert(all[i] == active[active.len() - 1]);
            }
        }
        assert forall|j: int|
            0 <= j < active.len() && (#[trigger] active[j]).0.kind == kind && !active[j].0.muted
                && !active[j].1.muted implies all.contains(active[j]) by {
            if j < active.len() - 1 {
                assert(rest[j] == active[j]);
                let w = choose|w: int| 0 <= w < r.len() && r[w] == rest[j];
                assert(all[w] == r[w]);
            } else {
                assert(all[all.len() - 1] == active[j]);
            }
        }
    }
}

proof fn lemma_contributing_filters(
    active: Seq<(Track, Clip)>,
    kind: TrackKind,
    keep: spec_fn((Track, Clip)) -> bool,
)
    requires
        forall|p: (Track, Clip)| #[trigger] keep(p) == (p.0.kind == kind && !p.0.muted && !p.1.muted),
    ensures
        contributing(active, kind) == active.filter(keep),
    decreases active.len(),
{
    reveal(Seq::filter);
    if active.len() == 0 {
        assert(contributing(active, kind) =~= active.filter(keep));
    } else {
        lemma_contributing_filters(active.drop_last(), kind, keep);
        assert(keep(active.last()) == (active.last().0.kind == kind && !active.last().0.muted
            && !active.last().1.muted));
    }
}

/// The clips that feed an output of kind `kind` are the active clips kept,
/// in their order, when those of other kinds of track and the muted ones
/// (clip or track) are filtered out.
pub proof fn lemma_contributing_is_filter(active: Seq<(Track, Clip)>, kind: TrackKind)
    ensures
        contributing(active, kind) == active.filter(
            |p: (Track, Clip)| p.0.kind == kind && !p.0.muted && !p.1.muted,
        ),
{
    lemma_contributing_filters(
        active,
        kind,
        |p: (Track, Clip)| p.0.kind == kind && !p.0.muted && !p.1.muted,
    );
}

} // verus!
