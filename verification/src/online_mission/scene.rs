//! The mission's view of its surroundings, and the geometry it measures there.
use super::{frame, wrap, OnlineMissionConfig};
use crate::autonomy::{Footprint, HalfPlane, Outline, Point2, Pose2, PoseEstimate, Stance};
use crate::binary64::values::{HALF, INFINITE, NEGATIVE_INFINITE, ZERO};
use crate::binary64::Binary64;
use crate::elementary::Elementary;
use crate::elementary;
use crate::local_world::{ElementGeometry, ElementTrack, Space, SpaceState, TrackId};
use crate::navigation::Rect;
use crate::online_mission;
use vstd::prelude::*;

verus! {

/// A mission's limits with what it may ask of its surroundings at one time.
///
/// The space tells what is known of a part of the plane; the flaw of a
/// half-plane is why it is none, where it is none; the stance is that of a body
/// at a pose to a half-plane.
pub struct Policy<
    'a,
    F: Fn(Elementary) -> Binary64,
    S: Fn(Space) -> SpaceState,
    V: Fn(HalfPlane) -> Option<String>,
    E: Fn(HalfPlane, Footprint, Pose2) -> Stance,
> {
    pub limits: &'a OnlineMissionConfig,
    pub host: &'a F,
    pub space: &'a S,
    pub flaw: &'a V,
    pub stance: &'a E,
    /// The confirmed tracks.
    pub tracks: &'a Vec<ElementTrack>,
}

/// Limits and surroundings as mathematical values.
pub struct Scene {
    pub limits: OnlineMissionConfig,
    pub math: spec_fn(Elementary) -> Binary64,
    pub space: spec_fn(Space) -> SpaceState,
    pub flaw: spec_fn(HalfPlane) -> Option<Seq<char>>,
    pub stance: spec_fn(HalfPlane, Footprint, Pose2) -> Stance,
    /// The message, where to retire a track fails.
    pub retire: spec_fn(TrackId) -> Option<Seq<char>>,
    pub tracks: Seq<ElementTrack>,
}

/// A message, where there is one.
pub open spec fn said(message: Option<String>) -> Option<Seq<char>> {
    match message {
        None => None,
        Some(text) => Some(text@),
    }
}

/// Whether mathematical values give the answer to retiring a track, which is to
/// have it marked as processed.
pub open spec fn answers<R: FnOnce(TrackId) -> Option<String>>(retire: R, c: Scene) -> bool {
    forall|id: TrackId, r: Option<String>| #[trigger]
        call_ensures(retire, (id,), r) ==> said(r) == (c.retire)(id)
}

impl Scene {
    /// The point at a distance in a direction.
    pub open spec fn polar(self, origin: Point2, length: Binary64, angle: Binary64) -> Point2 {
        Point2 {
            x_m: origin.x_m.plus(length.times((self.math)(Elementary::Cosine(angle)))),
            y_m: origin.y_m.plus(length.times((self.math)(Elementary::Sine(angle)))),
        }
    }

    pub open spec fn distance(self, a: Point2, b: Point2) -> Binary64 {
        (self.math)(a.separation(b))
    }

    /// The radius of the disc round the whole body.
    pub open spec fn body_radius(self) -> Binary64 {
        (self.math)(
            Elementary::Length {
                x: self.limits.footprint.front_m.max(self.limits.footprint.rear_m),
                y: self.limits.footprint.half_width_m,
            },
        )
    }

    pub open spec fn body_padding(self) -> Binary64 {
        self.body_radius().plus(self.limits.clearance_m)
    }

    /// Whether no part of the body moves faster than a stopped one may.
    pub open spec fn stopped(self, estimate: PoseEstimate) -> bool {
        estimate.speed_mps.abs().plus(
            estimate.yaw_rate_radps.abs().times(self.body_radius()),
        ).le(self.limits.stopped_speed_mps)
    }

    pub open spec fn near(self, pose: Pose2, point: Point2, heading: Binary64) -> bool {
        self.distance(pose.point(), point).le(self.limits.goal_tolerance_m) && wrap(
            pose.yaw_rad.minus(heading),
        ).abs().le(self.limits.goal_heading_tolerance_rad)
    }

    pub open spec fn free_segment(self, from: Point2, to: Point2) -> bool {
        (self.space)(Space::Segment { from, to, padding_m: self.body_padding() })
            == SpaceState::KnownFree
    }

    /// Whether the whole body, with its clearance, is in known free space.
    pub open spec fn free_body(self, pose: Pose2) -> bool {
        (self.space)(
            Space::Body {
                body: self.limits.footprint.outline(self.math, pose),
                padding_m: self.limits.clearance_m,
            },
        ) == SpaceState::KnownFree
    }

    pub open spec fn corner_inside(
        self,
        track: ElementTrack,
        depth_m: Binary64,
        lateral_half_width_m: Binary64,
        corner: Point2,
    ) -> bool {
        let point = frame(track).seen(self.math, corner);
        let margin = online_mission::region_margin(self.math, track);
        margin.le(point.x_m) && point.x_m.le(depth_m.minus(margin)) && point.y_m.abs().le(
            lateral_half_width_m.minus(margin),
        )
    }

    /// Whether a region contains the whole body, whatever its error.
    pub open spec fn inside_region(self, pose: Pose2, track: ElementTrack) -> bool {
        let body = self.limits.footprint.outline(self.math, pose);
        match track.geometry {
            ElementGeometry::Cone { .. } => false,
            ElementGeometry::LineRegion { lateral_half_width_m: w, depth_m: d } => {
                &&& self.corner_inside(track, d, w, body.front_left)
                &&& self.corner_inside(track, d, w, body.front_right)
                &&& self.corner_inside(track, d, w, body.rear_right)
                &&& self.corner_inside(track, d, w, body.rear_left)
            },
        }
    }

    /// The near or far edge of a region, drawn in by the region's error.
    pub open spec fn edge(self, track: ElementTrack, far: bool) -> Result<HalfPlane, Seq<char>> {
        permission_edge(self.math, self.flaw, track, far)
    }

    /// The goal in the middle of a region that can contain the body, with the
    /// region's heading.
    pub open spec fn region_goal(self, track: ElementTrack) -> Result<
        (Point2, Binary64),
        Seq<char>,
    > {
        match track.geometry {
            ElementGeometry::Cone { .. } => Err("region track has incompatible geometry"@),
            ElementGeometry::LineRegion { lateral_half_width_m, depth_m } => {
                match track.heading_rad {
                    None => Err("region has no observed direction"@),
                    Some(heading) => {
                        let goal = frame(track).placed(
                            self.math,
                            Point2 {
                                x_m: depth_m.plus(self.limits.footprint.rear_m).minus(
                                    self.limits.footprint.front_m,
                                ).times(Binary64::of(HALF)),
                                y_m: Binary64::of(ZERO),
                            },
                        );
                        if lateral_half_width_m.le(self.limits.footprint.half_width_m)
                            || !self.inside_region(
                            Pose2 { x_m: goal.x_m, y_m: goal.y_m, yaw_rad: heading },
                            track,
                        ) {
                            Err(
                                "observed region cannot contain original footprint and uncertainty"@,
                            )
                        } else {
                            Ok((goal, heading))
                        }
                    },
                }
            },
        }
    }
}

/// A corner of a region, as widened by its error.
pub open spec fn region_corner(
    m: spec_fn(Elementary) -> Binary64,
    track: ElementTrack,
    x_m: Binary64,
    y_m: Binary64,
) -> Point2 {
    frame(track).placed(m, Point2 { x_m, y_m })
}

/// The upright rectangle round four points.
pub open spec fn surround(a: Point2, b: Point2, c: Point2, d: Point2) -> Rect {
    let low = Binary64::of(INFINITE);
    let high = Binary64::of(NEGATIVE_INFINITE);
    Rect {
        min_x_m: low.min(a.x_m).min(b.x_m).min(c.x_m).min(d.x_m),
        max_x_m: high.max(a.x_m).max(b.x_m).max(c.x_m).max(d.x_m),
        min_y_m: low.min(a.y_m).min(b.y_m).min(c.y_m).min(d.y_m),
        max_y_m: high.max(a.y_m).max(b.y_m).max(c.y_m).max(d.y_m),
    }
}

/// The edge of an observed region up to which a body may travel. It lies
/// before the near or far edge by the region's error, and counts beside the
/// region as far as that error reaches.
pub open spec fn permission_edge(
    m: spec_fn(Elementary) -> Binary64,
    flaw: spec_fn(HalfPlane) -> Option<Seq<char>>,
    track: ElementTrack,
    far: bool,
) -> Result<HalfPlane, Seq<char>> {
    match track.geometry {
        ElementGeometry::Cone { .. } => Err("boundary track is not a line region"@),
        ElementGeometry::LineRegion { lateral_half_width_m, depth_m } => {
            match track.heading_rad {
                None => Err("line boundary has no heading"@),
                Some(heading) => {
                    let error = online_mission::region_margin(m, track);
                    let width = lateral_half_width_m.plus(error);
                    let zero = Binary64::of(ZERO);
                    let edge = HalfPlane {
                        origin: track.position,
                        heading_rad: heading,
                        max_projection_m: (if far {
                            depth_m
                        } else {
                            zero
                        }).minus(error),
                        region: surround(
                            region_corner(m, track, zero, width.negated()),
                            region_corner(m, track, zero, width),
                            region_corner(m, track, depth_m, width.negated()),
                            region_corner(m, track, depth_m, width),
                        ),
                    };
                    match flaw(edge) {
                        Some(message) => Err(message),
                        None => Ok(edge),
                    }
                },
            }
        },
    }
}

/// A value, or a message why there is none.
pub open spec fn told<T>(r: Result<T, String>) -> Result<T, Seq<char>> {
    match r {
        Ok(value) => Ok(value),
        Err(message) => Err(message@),
    }
}

/// Whether the flaws of half-planes can be asked for.
pub open spec fn flaw_total<V: Fn(HalfPlane) -> Option<String>>(flaw: V) -> bool {
    forall|h: HalfPlane| #[trigger] call_requires(flaw, (h,))
}

/// Whether a mathematical function gives every flaw of a half-plane.
pub open spec fn flaw_modelled<V: Fn(HalfPlane) -> Option<String>>(
    flaw: V,
    f: spec_fn(HalfPlane) -> Option<Seq<char>>,
) -> bool {
    forall|h: HalfPlane, r: Option<String>| #[trigger]
        call_ensures(flaw, (h,), r) ==> said(r) == f(h)
}

fn enclosing(a: Point2, b: Point2, c: Point2, d: Point2) -> (r: Rect)
    ensures
        r == surround(a, b, c, d),
{
    let low: Binary64 = Binary64::of(INFINITE);
    let high: Binary64 = Binary64::of(NEGATIVE_INFINITE);
    Rect {
        min_x_m: low.min(a.x_m).min(b.x_m).min(c.x_m).min(d.x_m),
        max_x_m: high.max(a.x_m).max(b.x_m).max(c.x_m).max(d.x_m),
        min_y_m: low.min(a.y_m).min(b.y_m).min(c.y_m).min(d.y_m),
        max_y_m: high.max(a.y_m).max(b.y_m).max(c.y_m).max(d.y_m),
    }
}

/// How far the corners of an observed region may be displaced.
pub fn region_error<F: Fn(Elementary) -> Binary64>(track: ElementTrack, host: &F) -> (r: Binary64)
    requires
        elementary::total(*host),
    ensures
        forall|m: spec_fn(Elementary) -> Binary64| #[trigger]
            elementary::models(*host, m) ==> r == online_mission::region_margin(m, track),
{
    match track.geometry {
        ElementGeometry::Cone { .. } => Binary64::of(INFINITE),
        ElementGeometry::LineRegion { lateral_half_width_m, depth_m } => {
            let reach: Binary64 = host(
                Elementary::Length { x: depth_m, y: lateral_half_width_m },
            );
            track.position_error_m.plus(reach.times(track.heading_error_rad))
        },
    }
}

/// The near or far permission edge of an observed region. The caller checks
/// how fresh the observation is: the geometry neither confirms a track nor
/// grants a crossing.
pub fn observed_region_boundary<
    F: Fn(Elementary) -> Binary64,
    V: Fn(HalfPlane) -> Option<String>,
>(track: ElementTrack, far: bool, host: &F, flaw: &V) -> (r: Result<HalfPlane, String>)
    requires
        elementary::total(*host),
        flaw_total(*flaw),
    ensures
        forall|m: spec_fn(Elementary) -> Binary64, f: spec_fn(HalfPlane) -> Option<Seq<char>>|
            #[trigger] elementary::models(*host, m) && #[trigger] flaw_modelled(*flaw, f) ==> told(
                r,
            ) == permission_edge(m, f, track, far),
{
    match track.geometry {
        ElementGeometry::Cone { .. } => Err("boundary track is not a line region".to_owned()),
        ElementGeometry::LineRegion { lateral_half_width_m, depth_m } => {
            let heading: Binary64 = match track.heading_rad {
                None => {
                    return Err("line boundary has no heading".to_owned());
                },
                Some(heading) => heading,
            };
            let origin: Pose2 = frame(track);
            let error: Binary64 = region_error(track, host);
            let width: Binary64 = lateral_half_width_m.plus(error);
            let zero: Binary64 = Binary64::of(ZERO);
            let region: Rect = enclosing(
                origin.body_to_world(Point2 { x_m: zero, y_m: width.negated() }, host),
                origin.body_to_world(Point2 { x_m: zero, y_m: width }, host),
                origin.body_to_world(Point2 { x_m: depth_m, y_m: width.negated() }, host),
                origin.body_to_world(Point2 { x_m: depth_m, y_m: width }, host),
            );
            let reach: Binary64 = if far {
                depth_m
            } else {
                zero
            };
            let edge: HalfPlane = HalfPlane {
                origin: track.position,
                heading_rad: heading,
                max_projection_m: reach.minus(error),
                region,
            };
            match flaw(edge) {
                Some(message) => Err(message),
                None => Ok(edge),
            }
        },
    }
}

impl<
    'a,
    F: Fn(Elementary) -> Binary64,
    S: Fn(Space) -> SpaceState,
    V: Fn(HalfPlane) -> Option<String>,
    E: Fn(HalfPlane, Footprint, Pose2) -> Stance,
> Policy<'a, F, S, V, E> {
    /// Whether the surroundings can be asked anything.
    pub open spec fn total(&self) -> bool {
        &&& elementary::total(*self.host)
        &&& flaw_total(*self.flaw)
        &&& forall|q: Space| #[trigger] call_requires(*self.space, (q,))
        &&& forall|h: HalfPlane, b: Footprint, p: Pose2| #[trigger]
            call_requires(*self.stance, (h, b, p))
    }

    /// Whether mathematical values give every answer of the surroundings.
    pub open spec fn described(&self, c: Scene) -> bool {
        &&& c.limits == *self.limits
        &&& c.tracks == self.tracks@
        &&& elementary::models(*self.host, c.math)
        &&& flaw_modelled(*self.flaw, c.flaw)
        &&& forall|q: Space, r: SpaceState| #[trigger]
            call_ensures(*self.space, (q,), r) ==> r == (c.space)(q)
        &&& forall|h: HalfPlane, b: Footprint, p: Pose2, r: Stance| #[trigger]
            call_ensures(*self.stance, (h, b, p), r) ==> r == (c.stance)(h, b, p)
    }

    /// Whether a track may be retired wherever it is due: a track that is due in
    /// every scene that describes the surroundings, and no other, is one that
    /// the call has to accept.
    pub open spec fn retirable<R: FnOnce(TrackId) -> Option<String>>(
        &self,
        retire: R,
        due: spec_fn(Scene) -> Option<TrackId>,
    ) -> bool {
        forall|id: TrackId|
            (forall|c: Scene| #[trigger] self.described(c) ==> due(c) == Some(id))
                ==> #[trigger] call_requires(retire, (id,))
    }

    pub fn ask(&self, q: Elementary) -> (r: Binary64)
        requires
            self.total(),
        ensures
            forall|c: Scene| #[trigger] self.described(c) ==> r == (c.math)(q),
    {
        (self.host)(q)
    }

    pub fn look(&self, q: Space) -> (r: SpaceState)
        requires
            self.total(),
        ensures
            forall|c: Scene| #[trigger] self.described(c) ==> r == (c.space)(q),
    {
        (self.space)(q)
    }

    pub fn stand(&self, edge: HalfPlane, pose: Pose2) -> (r: Stance)
        requires
            self.total(),
        ensures
            forall|c: Scene| #[trigger]
                self.described(c) ==> r == (c.stance)(edge, c.limits.footprint, pose),
    {
        (self.stance)(edge, self.limits.footprint, pose)
    }

    pub fn polar(&self, origin: Point2, length: Binary64, angle: Binary64) -> (r: Point2)
        requires
            self.total(),
        ensures
            forall|c: Scene| #[trigger] self.described(c) ==> r == c.polar(origin, length, angle),
    {
        let cos: Binary64 = self.ask(Elementary::Cosine(angle));
        let sin: Binary64 = self.ask(Elementary::Sine(angle));
        Point2 {
            x_m: origin.x_m.plus(length.times(cos)),
            y_m: origin.y_m.plus(length.times(sin)),
        }
    }

    pub fn distance(&self, a: Point2, b: Point2) -> (r: Binary64)
        requires
            self.total(),
        ensures
            forall|c: Scene| #[trigger] self.described(c) ==> r == c.distance(a, b),
    {
        self.ask(Elementary::Length { x: a.x_m.minus(b.x_m), y: a.y_m.minus(b.y_m) })
    }

    pub fn seen(&self, from: Pose2, point: Point2) -> (r: Point2)
        requires
            self.total(),
        ensures
            forall|c: Scene| #[trigger] self.described(c) ==> r == from.seen(c.math, point),
    {
        let r: Point2 = from.world_to_body(point, self.host);
        assert forall|c: Scene| #[trigger] self.described(c) implies r == from.seen(
            c.math,
            point,
        ) by {
            assert(elementary::models(*self.host, c.math));
        }
        r
    }

    pub fn placed(&self, from: Pose2, point: Point2) -> (r: Point2)
        requires
            self.total(),
        ensures
            forall|c: Scene| #[trigger] self.described(c) ==> r == from.placed(c.math, point),
    {
        let r: Point2 = from.body_to_world(point, self.host);
        assert forall|c: Scene| #[trigger] self.described(c) implies r == from.placed(
            c.math,
            point,
        ) by {
            assert(elementary::models(*self.host, c.math));
        }
        r
    }

    pub fn outline(&self, pose: Pose2) -> (r: Outline)
        requires
            self.total(),
        ensures
            forall|c: Scene| #[trigger]
                self.described(c) ==> r == c.limits.footprint.outline(c.math, pose),
    {
        let r: Outline = self.limits.footprint.corners(pose, self.host);
        assert forall|c: Scene| #[trigger] self.described(c) implies r
            == c.limits.footprint.outline(c.math, pose) by {
            assert(elementary::models(*self.host, c.math));
        }
        r
    }

    pub fn region_error(&self, track: ElementTrack) -> (r: Binary64)
        requires
            self.total(),
        ensures
            forall|c: Scene| #[trigger] self.described(c) ==> r == online_mission::region_margin(c.math, track),
    {
        let r: Binary64 = region_error(track, self.host);
        assert forall|c: Scene| #[trigger] self.described(c) implies r == online_mission::region_margin(
            c.math,
            track,
        ) by {
            assert(elementary::models(*self.host, c.math));
        }
        r
    }

    pub fn region_boundary(&self, track: ElementTrack, far: bool) -> (r: Result<HalfPlane, String>)
        requires
            self.total(),
        ensures
            forall|c: Scene| #[trigger] self.described(c) ==> told(r) == c.edge(track, far),
    {
        let r: Result<HalfPlane, String> = observed_region_boundary(
            track,
            far,
            self.host,
            self.flaw,
        );
        assert forall|c: Scene| #[trigger] self.described(c) implies told(r) == c.edge(
            track,
            far,
        ) by {
            assert(elementary::models(*self.host, c.math));
            assert(flaw_modelled(*self.flaw, c.flaw));
        }
        r
    }

    pub fn body_radius(&self) -> (r: Binary64)
        requires
            self.total(),
        ensures
            forall|c: Scene| #[trigger] self.described(c) ==> r == c.body_radius(),
    {
        self.ask(
            Elementary::Length {
                x: self.limits.footprint.front_m.max(self.limits.footprint.rear_m),
                y: self.limits.footprint.half_width_m,
            },
        )
    }

    pub fn body_padding(&self) -> (r: Binary64)
        requires
            self.total(),
        ensures
            forall|c: Scene| #[trigger] self.described(c) ==> r == c.body_padding(),
    {
        let radius: Binary64 = self.body_radius();
        radius.plus(self.limits.clearance_m)
    }

    pub fn stopped(&self, estimate: &PoseEstimate) -> (r: bool)
        requires
            self.total(),
        ensures
            forall|c: Scene| #[trigger] self.described(c) ==> r == c.stopped(*estimate),
    {
        let radius: Binary64 = self.body_radius();
        estimate.speed_mps.abs().plus(estimate.yaw_rate_radps.abs().times(radius)).at_most(
            self.limits.stopped_speed_mps,
        )
    }

    pub fn near(&self, pose: Pose2, point: Point2, heading: Binary64) -> (r: bool)
        requires
            self.total(),
        ensures
            forall|c: Scene| #[trigger] self.described(c) ==> r == c.near(pose, point, heading),
    {
        let distance: Binary64 = self.distance(pose.point(), point);
        distance.at_most(self.limits.goal_tolerance_m) && wrap(
            pose.yaw_rad.minus(heading),
        ).abs().at_most(self.limits.goal_heading_tolerance_rad)
    }

    pub fn free_segment(&self, from: Point2, to: Point2) -> (r: bool)
        requires
            self.total(),
        ensures
            forall|c: Scene| #[trigger] self.described(c) ==> r == c.free_segment(from, to),
    {
        let padding_m: Binary64 = self.body_padding();
        let state: SpaceState = self.look(Space::Segment { from, to, padding_m });
        state == SpaceState::KnownFree
    }

    pub fn free_body(&self, pose: Pose2) -> (r: bool)
        requires
            self.total(),
        ensures
            forall|c: Scene| #[trigger] self.described(c) ==> r == c.free_body(pose),
    {
        let body: Outline = self.outline(pose);
        let state: SpaceState = self.look(
            Space::Body { body, padding_m: self.limits.clearance_m },
        );
        state == SpaceState::KnownFree
    }

    fn corner_inside(
        &self,
        track: ElementTrack,
        depth_m: Binary64,
        lateral_half_width_m: Binary64,
        corner: Point2,
    ) -> (r: bool)
        requires
            self.total(),
        ensures
            forall|c: Scene| #[trigger]
                self.described(c) ==> r == c.corner_inside(
                    track,
                    depth_m,
                    lateral_half_width_m,
                    corner,
                ),
    {
        let point: Point2 = self.seen(frame(track), corner);
        let margin: Binary64 = self.region_error(track);
        margin.at_most(point.x_m) && point.x_m.at_most(depth_m.minus(margin))
            && point.y_m.abs().at_most(lateral_half_width_m.minus(margin))
    }

    pub fn inside_region(&self, pose: Pose2, track: ElementTrack) -> (r: bool)
        requires
            self.total(),
        ensures
            forall|c: Scene| #[trigger] self.described(c) ==> r == c.inside_region(pose, track),
    {
        match track.geometry {
            ElementGeometry::Cone { .. } => false,
            ElementGeometry::LineRegion { lateral_half_width_m: w, depth_m: d } => {
                let body: Outline = self.outline(pose);
                self.corner_inside(track, d, w, body.front_left) && self.corner_inside(
                    track,
                    d,
                    w,
                    body.front_right,
                ) && self.corner_inside(track, d, w, body.rear_right) && self.corner_inside(
                    track,
                    d,
                    w,
                    body.rear_left,
                )
            },
        }
    }

    pub fn region_goal(&self, track: ElementTrack) -> (r: Result<(Point2, Binary64), String>)
        requires
            self.total(),
        ensures
            forall|c: Scene| #[trigger] self.described(c) ==> told(r) == c.region_goal(track),
    {
        match track.geometry {
            ElementGeometry::Cone { .. } => Err(
                "region track has incompatible geometry".to_owned(),
            ),
            ElementGeometry::LineRegion { lateral_half_width_m, depth_m } => {
                let heading: Binary64 = match track.heading_rad {
                    None => {
                        return Err("region has no observed direction".to_owned());
                    },
                    Some(heading) => heading,
                };
                let goal: Point2 = self.placed(
                    frame(track),
                    Point2 {
                        x_m: depth_m.plus(self.limits.footprint.rear_m).minus(
                            self.limits.footprint.front_m,
                        ).times(Binary64::of(HALF)),
                        y_m: Binary64::of(ZERO),
                    },
                );
                if lateral_half_width_m.at_most(self.limits.footprint.half_width_m)
                    || !self.inside_region(
                    Pose2 { x_m: goal.x_m, y_m: goal.y_m, yaw_rad: heading },
                    track,
                ) {
                    return Err(
                        "observed region cannot contain original footprint and uncertainty".to_owned(),
                    );
                }
                Ok((goal, heading))
            },
        }
    }
}

} // verus!
