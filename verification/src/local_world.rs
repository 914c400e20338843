//! What has been observed of the surroundings.
use crate::autonomy::{Outline, Point2};
use crate::binary64::Binary64;
use crate::sensors::Timestamp;
use vstd::prelude::*;

verus! {

#[derive(Clone, Copy, Debug, PartialEq, Eq, Structural)]
pub enum ElementKind {
    Crosswalk,
    Cone,
    StopLine,
    FinishMarker,
}

#[derive(Clone, Copy, Debug, PartialEq, Eq, Structural)]
pub enum ElementColor {
    Unknown,
    Red,
    Blue,
    White,
}

/// The measured shape of an element. A region has its near edge at the
/// element's position and extends along its heading.
#[derive(Clone, Copy, Debug, PartialEq, Eq, Structural)]
pub enum ElementGeometry {
    Cone { radius_m: Binary64 },
    LineRegion { lateral_half_width_m: Binary64, depth_m: Binary64 },
}

#[derive(Clone, Copy, Debug, PartialEq, Eq, Structural)]
pub struct TrackId(pub u64);

/// An element that has been observed repeatedly.
#[derive(Clone, Copy, Debug, PartialEq, Eq, Structural)]
pub struct ElementTrack {
    pub id: TrackId,
    pub kind: ElementKind,
    pub color: ElementColor,
    pub position: Point2,
    pub heading_rad: Option<Binary64>,
    pub geometry: ElementGeometry,
    pub confidence: Binary64,
    pub position_error_m: Binary64,
    pub heading_error_rad: Binary64,
    pub observations: u32,
    pub last_geometry_at: Timestamp,
    pub last_visual_at: Timestamp,
    pub valid: bool,
    pub processed: bool,
}

/// What is known of a part of the plane.
#[derive(Clone, Copy, Debug, PartialEq, Eq, Structural)]
pub enum SpaceState {
    KnownFree,
    Obstacle,
    Unknown,
}

/// A part of the plane, with a margin around it.
#[derive(Clone, Copy, Debug, PartialEq, Eq, Structural)]
pub enum Space {
    Segment { from: Point2, to: Point2, padding_m: Binary64 },
    /// The convex hull of a body.
    Body { body: Outline, padding_m: Binary64 },
    /// The convex hull of two bodies.
    Sweep { first: Outline, last: Outline, padding_m: Binary64 },
}

/// The first track with an identity, from one index on.
pub open spec fn known(tracks: Seq<ElementTrack>, id: TrackId, i: nat) -> Option<ElementTrack>
    decreases tracks.len() - i,
{
    if i >= tracks.len() {
        None
    } else if tracks[i as int].id == id {
        Some(tracks[i as int])
    } else {
        known(tracks, id, i + 1)
    }
}

/// The first track with an identity.
pub fn find(tracks: &Vec<ElementTrack>, id: TrackId) -> (r: Option<ElementTrack>)
    ensures
        r == known(tracks@, id, 0),
{
    let mut i: usize = 0;
    while i < tracks.len()
        invariant
            i <= tracks@.len(),
            known(tracks@, id, 0) == known(tracks@, id, i as nat),
        decreases tracks@.len() - i,
    {
        if tracks[i].id == id {
            return Some(tracks[i]);
        }
        i += 1;
    }
    None
}

} // verus!
