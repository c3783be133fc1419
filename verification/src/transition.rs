//! Transitions between two adjacent clips on one track.

use crate::id::Id;
use crate::time::TimeKey;
use vstd::prelude::*;

verus! {

/// The kind of a transition.
#[derive(Clone, Copy, PartialEq, Eq, Debug, Structural)]
pub enum TransitionKind {
    /// Simple hard cut.
    Cut,
    /// Cross-fade between outgoing and incoming clip.
    Dissolve,
    /// Dip through black.
    DipToBlack,
    /// Wipe left-to-right.
    WipeLeft,
    /// Wipe right-to-left.
    WipeRight,
    /// Audio cross-fade.
    AudioCrossfade,
}

/// A transition from one clip into the next.
#[derive(Clone, Copy, PartialEq, Eq, Debug, Structural)]
pub struct Transition {
    pub id: Id,
    pub kind: TransitionKind,
    /// Outgoing clip.
    pub from_clip: Id,
    /// Incoming clip.
    pub to_clip: Id,
    /// Length of the overlap region.
    pub duration: TimeKey,
}

impl Transition {
    pub fn new(id: Id, kind: TransitionKind, from_clip: Id, to_clip: Id, duration: TimeKey) -> (r:
        Transition)
        ensures
            r == (Transition { id, kind, from_clip, to_clip, duration }),
    {
        Transition { id, kind, from_clip, to_clip, duration }
    }
}

} // verus!
