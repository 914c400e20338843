//! Poses and the other plain geometry that planning and control exchange.
use crate::binary64::laws;
use crate::binary64::signs;
use crate::binary64::values::{ONE, ZERO};
use crate::binary64::Binary64;
use crate::elementary::Elementary;
use crate::elementary;
use crate::navigation::Rect;
use crate::sensors::{FrameId, Timestamp, ValidationError};
use crate::sensors;
use vstd::prelude::*;

verus! {

/// A point in the plane, in metres.
#[derive(Clone, Copy, Debug, PartialEq, Eq, Structural)]
pub struct Point2 {
    pub x_m: Binary64,
    pub y_m: Binary64,
}

/// A position and a heading.
#[derive(Clone, Copy, Debug, PartialEq, Eq, Structural)]
pub struct Pose2 {
    pub x_m: Binary64,
    pub y_m: Binary64,
    pub yaw_rad: Binary64,
}

/// A rigid body's extent ahead of, behind and beside its reference point.
#[derive(Clone, Copy, Debug, PartialEq, Eq, Structural)]
pub struct Footprint {
    pub front_m: Binary64,
    pub rear_m: Binary64,
    pub half_width_m: Binary64,
}

/// The corners of a body in the world.
#[derive(Clone, Copy, Debug, PartialEq, Eq, Structural)]
pub struct Outline {
    pub front_left: Point2,
    pub front_right: Point2,
    pub rear_right: Point2,
    pub rear_left: Point2,
}

#[derive(Clone, Copy, Debug, PartialEq, Eq, Structural)]
pub enum LightState {
    Unknown,
    Red,
    Yellow,
    Green,
    Conflicting,
}

/// The side of a line that may be travelled: what lies along the heading from
/// the origin by at most the largest projection, next to the region.
#[derive(Clone, Copy, Debug, PartialEq, Eq, Structural)]
pub struct HalfPlane {
    pub origin: Point2,
    pub heading_rad: Binary64,
    pub max_projection_m: Binary64,
    pub region: Rect,
}

/// How a body stands to a half-plane.
#[derive(Clone, Copy, Debug, PartialEq, Eq, Structural)]
pub struct Stance {
    /// Whether the half-plane contains the whole body.
    pub inside: bool,
    /// How far along the heading the rearmost part of the body is.
    pub rear_m: Binary64,
}

/// What the camera sees of the road.
#[derive(Debug)]
pub struct RoadObservation {
    pub captured_at: Timestamp,
    pub frame_id: FrameId,
    /// The measurements of a crosswalk, where one is seen.
    pub crosswalk: Option<Vec<Binary64>>,
    pub light: LightState,
    pub light_confidence: Binary64,
    pub cones_body_m: Vec<Point2>,
}

/// A localized pose with its velocities.
#[derive(Debug)]
pub struct PoseEstimate {
    pub captured_at: Timestamp,
    pub frame_id: FrameId,
    pub pose: Pose2,
    pub speed_mps: Binary64,
    pub yaw_rate_radps: Binary64,
    pub quality: Binary64,
}

impl Clone for PoseEstimate {
    fn clone(&self) -> (r: Self)
        ensures
            r == *self,
    {
        PoseEstimate {
            captured_at: self.captured_at,
            frame_id: self.frame_id.clone(),
            pose: self.pose,
            speed_mps: self.speed_mps,
            yaw_rate_radps: self.yaw_rate_radps,
            quality: self.quality,
        }
    }
}

impl Point2 {
    pub open spec fn finite(self) -> bool {
        self.x_m.finite() && self.y_m.finite()
    }

    pub fn valid(self) -> (r: bool)
        ensures
            r == self.finite(),
    {
        self.x_m.is_finite() && self.y_m.is_finite()
    }

    /// Equality of the coordinates as numbers.
    pub open spec fn same(self, other: Point2) -> bool {
        self.x_m.same(other.x_m) && self.y_m.same(other.y_m)
    }

    #[verifier::when_used_as_spec(same)]
    pub fn equals(self, other: Point2) -> (r: bool)
        ensures
            r == self.same(other),
    {
        self.x_m.equals(other.x_m) && self.y_m.equals(other.y_m)
    }

    /// The question about the distance to another point.
    pub open spec fn separation(self, other: Point2) -> Elementary {
        Elementary::Length { x: self.x_m.minus(other.x_m), y: self.y_m.minus(other.y_m) }
    }

    /// The distance to another point.
    pub fn distance<F: Fn(Elementary) -> Binary64>(self, other: Point2, host: &F) -> (r: Binary64)
        requires
            elementary::total(*host),
        ensures
            call_ensures(*host, (self.separation(other),), r),
    {
        host(Elementary::Length { x: self.x_m.minus(other.x_m), y: self.y_m.minus(other.y_m) })
    }
}

impl Pose2 {
    pub open spec fn finite(self) -> bool {
        self.x_m.finite() && self.y_m.finite() && self.yaw_rad.finite()
    }

    pub fn valid(self) -> (r: bool)
        ensures
            r == self.finite(),
    {
        self.x_m.is_finite() && self.y_m.is_finite() && self.yaw_rad.is_finite()
    }

    pub open spec fn spec_point(self) -> Point2 {
        Point2 { x_m: self.x_m, y_m: self.y_m }
    }

    #[verifier::when_used_as_spec(spec_point)]
    pub fn point(self) -> (r: Point2)
        ensures
            r == self.spec_point(),
    {
        Point2 { x_m: self.x_m, y_m: self.y_m }
    }

    /// Equality of the components as numbers.
    pub open spec fn same(self, other: Pose2) -> bool {
        self.x_m.same(other.x_m) && self.y_m.same(other.y_m) && self.yaw_rad.same(other.yaw_rad)
    }

    #[verifier::when_used_as_spec(same)]
    pub fn equals(self, other: Pose2) -> (r: bool)
        ensures
            r == self.same(other),
    {
        self.x_m.equals(other.x_m) && self.y_m.equals(other.y_m) && self.yaw_rad.equals(
            other.yaw_rad,
        )
    }

    /// A point of the world as seen from this pose.
    pub open spec fn seen(self, m: spec_fn(Elementary) -> Binary64, point: Point2) -> Point2 {
        let dx = point.x_m.minus(self.x_m);
        let dy = point.y_m.minus(self.y_m);
        let cos = m(Elementary::Cosine(self.yaw_rad));
        let sin = m(Elementary::Sine(self.yaw_rad));
        Point2 {
            x_m: dx.times(cos).plus(dy.times(sin)),
            y_m: dy.times(cos).minus(dx.times(sin)),
        }
    }

    /// A point seen from this pose, in the world.
    pub open spec fn placed(self, m: spec_fn(Elementary) -> Binary64, point: Point2) -> Point2 {
        let cos = m(Elementary::Cosine(self.yaw_rad));
        let sin = m(Elementary::Sine(self.yaw_rad));
        Point2 {
            x_m: self.x_m.plus(point.x_m.times(cos).minus(point.y_m.times(sin))),
            y_m: self.y_m.plus(point.x_m.times(sin).plus(point.y_m.times(cos))),
        }
    }

    pub fn world_to_body<F: Fn(Elementary) -> Binary64>(self, point: Point2, host: &F) -> (r: Point2)
        requires
            elementary::total(*host),
        ensures
            forall|m: spec_fn(Elementary) -> Binary64| #[trigger]
                elementary::models(*host, m) ==> r == self.seen(m, point),
    {
        let dx: Binary64 = point.x_m.minus(self.x_m);
        let dy: Binary64 = point.y_m.minus(self.y_m);
        let cos: Binary64 = host(Elementary::Cosine(self.yaw_rad));
        let sin: Binary64 = host(Elementary::Sine(self.yaw_rad));
        Point2 {
            x_m: dx.times(cos).plus(dy.times(sin)),
            y_m: dy.times(cos).minus(dx.times(sin)),
        }
    }

    pub fn body_to_world<F: Fn(Elementary) -> Binary64>(self, point: Point2, host: &F) -> (r: Point2)
        requires
            elementary::total(*host),
        ensures
            forall|m: spec_fn(Elementary) -> Binary64| #[trigger]
                elementary::models(*host, m) ==> r == self.placed(m, point),
    {
        let cos: Binary64 = host(Elementary::Cosine(self.yaw_rad));
        let sin: Binary64 = host(Elementary::Sine(self.yaw_rad));
        Point2 {
            x_m: self.x_m.plus(point.x_m.times(cos).minus(point.y_m.times(sin))),
            y_m: self.y_m.plus(point.x_m.times(sin).plus(point.y_m.times(cos))),
        }
    }
}

impl PoseEstimate {
    /// Equality of everything, numbers by their value.
    pub open spec fn same(&self, other: &PoseEstimate) -> bool {
        &&& self.captured_at == other.captured_at
        &&& self.frame_id@ == other.frame_id@
        &&& self.pose.same(other.pose)
        &&& self.speed_mps.same(other.speed_mps)
        &&& self.yaw_rate_radps.same(other.yaw_rate_radps)
        &&& self.quality.same(other.quality)
    }

    #[verifier::when_used_as_spec(same)]
    pub fn equals(&self, other: &PoseEstimate) -> (r: bool)
        ensures
            r == self.same(other),
    {
        self.captured_at == other.captured_at && self.frame_id.same_as(&other.frame_id)
            && self.pose.equals(other.pose) && self.speed_mps.equals(other.speed_mps)
            && self.yaw_rate_radps.equals(other.yaw_rate_radps) && self.quality.equals(
            other.quality,
        )
    }
}

impl Footprint {
    pub open spec fn corner(
        self,
        m: spec_fn(Elementary) -> Binary64,
        pose: Pose2,
        front: bool,
        left: bool,
    ) -> Point2 {
        pose.placed(
            m,
            Point2 {
                x_m: if front {
                    self.front_m
                } else {
                    self.rear_m.negated()
                },
                y_m: if left {
                    self.half_width_m
                } else {
                    self.half_width_m.negated()
                },
            },
        )
    }

    /// The corners of a body at a pose.
    pub open spec fn outline(self, m: spec_fn(Elementary) -> Binary64, pose: Pose2) -> Outline {
        Outline {
            front_left: self.corner(m, pose, true, true),
            front_right: self.corner(m, pose, true, false),
            rear_right: self.corner(m, pose, false, false),
            rear_left: self.corner(m, pose, false, true),
        }
    }

    pub fn corners<F: Fn(Elementary) -> Binary64>(self, pose: Pose2, host: &F) -> (r: Outline)
        requires
            elementary::total(*host),
        ensures
            forall|m: spec_fn(Elementary) -> Binary64| #[trigger]
                elementary::models(*host, m) ==> r == self.outline(m, pose),
    {
        let rear: Binary64 = self.rear_m.negated();
        let right: Binary64 = self.half_width_m.negated();
        let left: Binary64 = self.half_width_m;
        Outline {
            front_left: pose.body_to_world(Point2 { x_m: self.front_m, y_m: left }, host),
            front_right: pose.body_to_world(Point2 { x_m: self.front_m, y_m: right }, host),
            rear_right: pose.body_to_world(Point2 { x_m: rear, y_m: right }, host),
            rear_left: pose.body_to_world(Point2 { x_m: rear, y_m: left }, host),
        }
    }

    /// What is wrong with a footprint.
    pub open spec fn fault(self) -> Option<Seq<char>> {
        if self.front_m.finite() && self.rear_m.finite() && self.half_width_m.finite()
            && Binary64::of(ZERO).lt(self.front_m) && Binary64::of(ZERO).lt(self.rear_m)
            && Binary64::of(ZERO).lt(self.half_width_m) {
            None
        } else {
            Some("footprint dimensions must be finite and positive"@)
        }
    }

    pub fn validate(self) -> (r: Result<(), ValidationError>)
        ensures
            sensors::refusal(r) == self.fault(),
    {
        if self.front_m.is_finite() && self.rear_m.is_finite() && self.half_width_m.is_finite()
            && Binary64::of(ZERO).less(self.front_m) && Binary64::of(ZERO).less(self.rear_m)
            && Binary64::of(ZERO).less(self.half_width_m) {
            Ok(())
        } else {
            Err(ValidationError::new("footprint dimensions must be finite and positive"))
        }
    }
}

/// What an observation of the road says.
pub struct Road {
    pub captured_at: Timestamp,
    pub frame: Seq<char>,
    pub crosswalk: Option<Seq<Binary64>>,
    pub light: LightState,
    pub light_confidence: Binary64,
    pub cones_body_m: Seq<Point2>,
}

impl View for RoadObservation {
    type V = Road;

    open spec fn view(&self) -> Road {
        Road {
            captured_at: self.captured_at,
            frame: self.frame_id@,
            crosswalk: match self.crosswalk {
                None => None,
                Some(numbers) => Some(numbers@),
            },
            light: self.light,
            light_confidence: self.light_confidence,
            cones_body_m: self.cones_body_m@,
        }
    }
}

pub open spec fn same_numbers(a: Seq<Binary64>, b: Seq<Binary64>) -> bool {
    a.len() == b.len() && forall|i: int| 0 <= i < a.len() ==> (#[trigger] a[i]).same(b[i])
}

pub open spec fn same_points(a: Seq<Point2>, b: Seq<Point2>) -> bool {
    a.len() == b.len() && forall|i: int| 0 <= i < a.len() ==> (#[trigger] a[i]).same(b[i])
}

fn equal_numbers(a: &Vec<Binary64>, b: &Vec<Binary64>) -> (r: bool)
    ensures
        r == same_numbers(a@, b@),
{
    if a.len() != b.len() {
        return false;
    }
    let mut i: usize = 0;
    while i < a.len()
        invariant
            i <= a@.len(),
            a@.len() == b@.len(),
            forall|j: int| 0 <= j < i ==> (#[trigger] a@[j]).same(b@[j]),
        decreases a@.len() - i,
    {
        if !a[i].equals(b[i]) {
            return false;
        }
        i += 1;
    }
    true
}

fn equal_points(a: &Vec<Point2>, b: &Vec<Point2>) -> (r: bool)
    ensures
        r == same_points(a@, b@),
{
    if a.len() != b.len() {
        return false;
    }
    let mut i: usize = 0;
    while i < a.len()
        invariant
            i <= a@.len(),
            a@.len() == b@.len(),
            forall|j: int| 0 <= j < i ==> (#[trigger] a@[j]).same(b@[j]),
        decreases a@.len() - i,
    {
        if !a[i].equals(b[i]) {
            return false;
        }
        i += 1;
    }
    true
}

impl Road {
    /// Equality of everything, numbers by their value.
    pub open spec fn same(self, other: Road) -> bool {
        &&& self.captured_at == other.captured_at
        &&& self.frame == other.frame
        &&& match (self.crosswalk, other.crosswalk) {
            (None, None) => true,
            (Some(a), Some(b)) => same_numbers(a, b),
            _ => false,
        }
        &&& self.light == other.light
        &&& self.light_confidence.same(other.light_confidence)
        &&& same_points(self.cones_body_m, other.cones_body_m)
    }
}

impl RoadObservation {
    pub fn equals(&self, other: &RoadObservation) -> (r: bool)
        ensures
            r == self@.same(other@),
    {
        let crosswalk: bool = match (&self.crosswalk, &other.crosswalk) {
            (None, None) => true,
            (Some(a), Some(b)) => equal_numbers(a, b),
            _ => false,
        };
        self.captured_at == other.captured_at && self.frame_id.same_as(&other.frame_id) && crosswalk
            && self.light == other.light && self.light_confidence.equals(other.light_confidence)
            && equal_points(&self.cones_body_m, &other.cones_body_m)
    }
}

impl Clone for RoadObservation {
    fn clone(&self) -> (r: Self)
        ensures
            r@ == self@,
    {
        let crosswalk: Option<Vec<Binary64>> = match &self.crosswalk {
            None => None,
            Some(numbers) => Some(copy_numbers(numbers)),
        };
        RoadObservation {
            captured_at: self.captured_at,
            frame_id: self.frame_id.clone(),
            crosswalk,
            light: self.light,
            light_confidence: self.light_confidence,
            cones_body_m: copy_points(&self.cones_body_m),
        }
    }
}

fn copy_numbers(a: &Vec<Binary64>) -> (r: Vec<Binary64>)
    ensures
        r@ == a@,
{
    let r: Vec<Binary64> = a.clone();
    assert(r@ =~= a@);
    r
}

fn copy_points(a: &Vec<Point2>) -> (r: Vec<Point2>)
    ensures
        r@ == a@,
{
    let r: Vec<Point2> = a.clone();
    assert(r@ =~= a@);
    r
}

/// A pose turns what it sees with its heading. Along the first axis a point is
/// moved by the position alone. A quarter turn to the left takes what is ahead
/// along the second axis, and what is on the left against the first. What is
/// straight ahead lies along the sine and the cosine of the heading.
pub proof fn law_poses_turn_to_the_left(
    pose: Pose2,
    m: spec_fn(Elementary) -> Binary64,
    p: Point2,
)
    requires
        p.finite(),
        pose.finite(),
    ensures
        ({
            let cos = m(Elementary::Cosine(pose.yaw_rad));
            let sin = m(Elementary::Sine(pose.yaw_rad));
            let there = pose.placed(m, p);
            let left = p.y_m.negated();
            &&& cos == Binary64::of(ONE) && sin.zero() ==> there.x_m.same(pose.x_m.plus(p.x_m))
                && there.y_m.same(pose.y_m.plus(p.y_m))
            &&& sin == Binary64::of(ONE) && cos.zero() ==> there.x_m.same(pose.x_m.plus(left))
                && there.y_m.same(pose.y_m.plus(p.x_m))
            &&& p.y_m.zero() && cos.finite() && sin.finite() && p.x_m.times(cos).finite()
                && p.x_m.times(sin).finite() ==> there.x_m.same(pose.x_m.plus(p.x_m.times(cos)))
                && there.y_m.same(pose.y_m.plus(p.x_m.times(sin)))
        }),
{
    let cos = m(Elementary::Cosine(pose.yaw_rad));
    let sin = m(Elementary::Sine(pose.yaw_rad));
    signs::law_zero_and_one(p.x_m);
    signs::law_zero_and_one(p.y_m);
    if cos == Binary64::of(ONE) && sin.zero() {
        signs::law_zero_makes_zero(p.x_m, sin);
        signs::law_zero_makes_zero(p.y_m, sin);
        signs::law_zero_adds_nothing(p.x_m, p.y_m.times(sin));
        signs::law_zero_adds_nothing(p.y_m, p.x_m.times(sin));
        lemma_sum_of_equals(pose.x_m, p.x_m, p.x_m.minus(p.y_m.times(sin)));
        lemma_sum_of_equals(pose.y_m, p.y_m, p.x_m.times(sin).plus(p.y_m));
    }
    if sin == Binary64::of(ONE) && cos.zero() {
        signs::law_zero_makes_zero(p.x_m, cos);
        signs::law_zero_makes_zero(p.y_m, cos);
        signs::law_zero_adds_nothing(p.y_m, p.x_m.times(cos));
        signs::law_zero_adds_nothing(p.x_m, p.y_m.times(cos));
        lemma_sum_of_equals(pose.x_m, p.y_m.negated(), p.x_m.times(cos).minus(p.y_m));
        lemma_sum_of_equals(pose.y_m, p.x_m, p.x_m.plus(p.y_m.times(cos)));
    }
    if p.y_m.zero() && cos.finite() && sin.finite() && p.x_m.times(cos).finite() && p.x_m.times(
        sin,
    ).finite() {
        signs::law_zero_makes_zero(sin, p.y_m);
        signs::law_zero_makes_zero(cos, p.y_m);
        signs::law_zero_adds_nothing(p.x_m.times(cos), p.y_m.times(sin));
        signs::law_zero_adds_nothing(p.x_m.times(sin), p.y_m.times(cos));
        lemma_sum_of_equals(
            pose.x_m,
            p.x_m.times(cos),
            p.x_m.times(cos).minus(p.y_m.times(sin)),
        );
        lemma_sum_of_equals(
            pose.y_m,
            p.x_m.times(sin),
            p.x_m.times(sin).plus(p.y_m.times(cos)),
        );
    }
}

/// A pose sees a point by how far it is ahead and to the left. Along the first
/// axis these are the differences of the coordinates. Along the second axis a
/// point is ahead by the difference of the second coordinates, and to the left
/// by the opposite of that of the first.
pub proof fn law_poses_see_to_the_left(
    pose: Pose2,
    m: spec_fn(Elementary) -> Binary64,
    p: Point2,
)
    requires
        p.x_m.minus(pose.x_m).finite(),
        p.y_m.minus(pose.y_m).finite(),
    ensures
        ({
            let cos = m(Elementary::Cosine(pose.yaw_rad));
            let sin = m(Elementary::Sine(pose.yaw_rad));
            let seen = pose.seen(m, p);
            let dx = p.x_m.minus(pose.x_m);
            let dy = p.y_m.minus(pose.y_m);
            &&& cos == Binary64::of(ONE) && sin.zero() ==> seen.x_m.same(dx) && seen.y_m.same(dy)
            &&& sin == Binary64::of(ONE) && cos.zero() ==> seen.x_m.same(dy) && seen.y_m.same(
                dx.negated(),
            )
        }),
{
    let cos = m(Elementary::Cosine(pose.yaw_rad));
    let sin = m(Elementary::Sine(pose.yaw_rad));
    let dx = p.x_m.minus(pose.x_m);
    let dy = p.y_m.minus(pose.y_m);
    signs::law_zero_and_one(dx);
    signs::law_zero_and_one(dy);
    if cos == Binary64::of(ONE) && sin.zero() {
        signs::law_zero_makes_zero(dx, sin);
        signs::law_zero_makes_zero(dy, sin);
        signs::law_zero_adds_nothing(dx, dy.times(sin));
        signs::law_zero_adds_nothing(dy, dx.times(sin));
    }
    if sin == Binary64::of(ONE) && cos.zero() {
        signs::law_zero_makes_zero(dx, cos);
        signs::law_zero_makes_zero(dy, cos);
        signs::law_zero_adds_nothing(dy, dx.times(cos));
        signs::law_zero_adds_nothing(dx, dy.times(cos));
    }
}

/// Equal terms give equal sums.
proof fn lemma_sum_of_equals(a: Binary64, b: Binary64, c: Binary64)
    requires
        a.finite(),
        b.finite(),
        c.finite(),
        b.same(c),
    ensures
        a.plus(c).same(a.plus(b)),
{
    laws::law_sums_are_monotone(b, c, a);
    laws::law_sums_are_monotone(c, b, a);
    signs::law_products_commute(a, b);
    signs::law_products_commute(a, c);
}

/// The corners of a body are its front and rear by half its width to either
/// side: left and right mirror each other, and so do front and rear for a body
/// that reaches as far to both.
pub proof fn law_corners_mirror_each_other(
    body: Footprint,
    m: spec_fn(Elementary) -> Binary64,
    pose: Pose2,
)
    ensures
        ({
            let o = body.outline(m, pose);
            let right = body.half_width_m.negated();
            let back = body.rear_m.negated();
            &&& o.front_left == pose.placed(
                m,
                Point2 { x_m: body.front_m, y_m: body.half_width_m },
            )
            &&& o.front_right == pose.placed(m, Point2 { x_m: body.front_m, y_m: right })
            &&& o.rear_left == pose.placed(m, Point2 { x_m: back, y_m: body.half_width_m })
            &&& o.rear_right == pose.placed(m, Point2 { x_m: back, y_m: right })
        }),
{
}

} // verus!
