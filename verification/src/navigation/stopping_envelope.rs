//! A proof of the complete set of stopping motions.
use super::recovery::ObstacleDisc;
use super::{NavigationConfig, Rect};
use crate::autonomy::{Point2, Pose2};
use crate::binary64::constants;
use crate::binary64::conversion;
use crate::binary64::laws;
use crate::binary64::signs;
use crate::binary64::values::{INFINITE, THOUSAND, TWO, ZERO};
use crate::binary64::{Binary64, HIDDEN};
use crate::elementary::Elementary;
use crate::elementary;
use crate::motion_transition;
use vstd::prelude::*;

verus! {

/// What limits a stopping motion.
#[derive(Clone, Copy, Debug, PartialEq, Eq, Structural)]
pub enum StoppingConstraint {
    MinX,
    MaxX,
    MinY,
    MaxY,
    TravelBoundary,
    Obstacle { index: usize },
}

/// The smallest clearance of a stopping motion, and what it is from.
#[derive(Clone, Copy, Debug, PartialEq, Eq, Structural)]
pub struct StoppingMargin {
    pub clearance_m: Binary64,
    pub constraint: StoppingConstraint,
}

impl StoppingMargin {
    /// Whether a margin is clear: an edge may be touched, an obstacle not.
    pub open spec fn spec_clear(self) -> bool {
        match self.constraint {
            StoppingConstraint::Obstacle { .. } => Binary64::of(ZERO).lt(self.clearance_m),
            _ => Binary64::of(ZERO).le(self.clearance_m),
        }
    }

    #[verifier::when_used_as_spec(spec_clear)]
    pub fn clear(self) -> (r: bool)
        ensures
            r == self.spec_clear(),
    {
        match self.constraint {
            StoppingConstraint::Obstacle { .. } => Binary64::of(ZERO).less(self.clearance_m),
            _ => Binary64::of(ZERO).at_most(self.clearance_m),
        }
    }

    /// The margin, or another one that is smaller.
    pub open spec fn spec_or_smaller(self, clearance_m: Binary64, constraint: StoppingConstraint) -> Self {
        if clearance_m.lt(self.clearance_m) {
            StoppingMargin { clearance_m, constraint }
        } else {
            self
        }
    }

    fn or_smaller(self, clearance_m: Binary64, constraint: StoppingConstraint) -> (r: Self)
        ensures
            r == self.spec_or_smaller(clearance_m, constraint),
    {
        if clearance_m.less(self.clearance_m) {
            StoppingMargin { clearance_m, constraint }
        } else {
            self
        }
    }

    /// The smallest margin to the edges of a rectangle, after a corner.
    pub open spec fn spec_after_corner(self, bounds: Rect, p: Point2) -> Self {
        self.spec_or_smaller(
            p.x_m.minus(bounds.min_x_m),
            StoppingConstraint::MinX,
        ).spec_or_smaller(
            bounds.max_x_m.minus(p.x_m),
            StoppingConstraint::MaxX,
        ).spec_or_smaller(
            p.y_m.minus(bounds.min_y_m),
            StoppingConstraint::MinY,
        ).spec_or_smaller(bounds.max_y_m.minus(p.y_m), StoppingConstraint::MaxY)
    }

    fn after_corner(self, bounds: Rect, p: Point2) -> (r: Self)
        ensures
            r == self.spec_after_corner(bounds, p),
    {
        self.or_smaller(p.x_m.minus(bounds.min_x_m), StoppingConstraint::MinX).or_smaller(
            bounds.max_x_m.minus(p.x_m),
            StoppingConstraint::MaxX,
        ).or_smaller(p.y_m.minus(bounds.min_y_m), StoppingConstraint::MinY).or_smaller(
            bounds.max_y_m.minus(p.y_m),
            StoppingConstraint::MaxY,
        )
    }
}

/// The stopping motions of which an envelope is asked: all those from a pose at
/// up to a speed, with any curvature up to the sharpest, after up to a time of
/// reaction.
#[derive(Clone, Copy, Debug)]
pub struct Stopping {
    pub config: NavigationConfig,
    pub pose: Pose2,
    pub speed_bound_mps: Binary64,
    pub max_curvature_per_m: Binary64,
    pub reaction_s: Binary64,
}

impl Stopping {
    /// The motions that a configuration allows from a pose: any curvature it
    /// allows, and a reaction within two control periods.
    pub open spec fn spec_of(
        config: NavigationConfig,
        pose: Pose2,
        speed_bound_mps: Binary64,
    ) -> Self {
        Stopping {
            config,
            pose,
            speed_bound_mps,
            max_curvature_per_m: config.max_curvature_per_m,
            reaction_s: reaction(config),
        }
    }

    #[verifier::when_used_as_spec(spec_of)]
    pub fn of(config: NavigationConfig, pose: Pose2, speed_bound_mps: Binary64) -> (r: Self)
        ensures
            r == Self::spec_of(config, pose, speed_bound_mps),
    {
        Stopping {
            config,
            pose,
            speed_bound_mps,
            max_curvature_per_m: config.max_curvature_per_m,
            reaction_s: reaction_s(&config),
        }
    }
}

/// What only the envelope and the boundary themselves can say.
pub struct Margins {
    pub math: spec_fn(Elementary) -> Binary64,
    /// The corners of the envelope's rectangle as seen from the pose, where
    /// there is an envelope.
    pub envelope: spec_fn(Stopping) -> Option<Seq<Point2>>,
    /// The margin of the corners to the travel boundary, where there is one.
    pub boundary: spec_fn(Seq<Point2>) -> Option<Binary64>,
    /// The margin of a disc, seen from the pose, to the envelope.
    pub disc: spec_fn(Stopping, Point2, Binary64) -> Binary64,
}

impl Margins {
    /// The corners of the envelope in the world.
    pub open spec fn corners(self, pose: Pose2, body: Seq<Point2>) -> Seq<Point2> {
        body.map_values(|p: Point2| pose.placed(self.math, p))
    }

    /// The smallest margin to the edges of the field, over the first corners.
    pub open spec fn to_edges(self, bounds: Rect, corners: Seq<Point2>, n: nat) -> StoppingMargin
        decreases n,
    {
        if n == 0 {
            StoppingMargin {
                clearance_m: Binary64::of(INFINITE),
                constraint: StoppingConstraint::MinX,
            }
        } else {
            self.to_edges(bounds, corners, (n - 1) as nat).spec_after_corner(
                bounds,
                corners[n - 1],
            )
        }
    }

    /// A margin against the travel boundary as well.
    pub open spec fn to_boundary(
        self,
        corners: Seq<Point2>,
        margin: StoppingMargin,
    ) -> StoppingMargin {
        match (self.boundary)(corners) {
            None => margin,
            Some(clearance) => margin.spec_or_smaller(clearance, StoppingConstraint::TravelBoundary),
        }
    }

    /// A margin against the first obstacles as well. An obstacle that is as
    /// near as an edge counts as the nearer.
    pub open spec fn to_obstacles(
        self,
        motions: Stopping,
        obstacles: Seq<ObstacleDisc>,
        n: nat,
        margin: StoppingMargin,
    ) -> StoppingMargin
        decreases n,
    {
        if n == 0 {
            margin
        } else {
            let before = self.to_obstacles(motions, obstacles, (n - 1) as nat, margin);
            let o = obstacles[n - 1];
            let clearance = (self.disc)(
                motions,
                motions.pose.seen(self.math, o.center),
                o.radius_m,
            );
            if clearance.le(before.clearance_m) {
                StoppingMargin {
                    clearance_m: clearance,
                    constraint: StoppingConstraint::Obstacle { index: (n - 1) as usize },
                }
            } else {
                before
            }
        }
    }

    /// The margin of every stopping motion, where it is clear.
    pub open spec fn certified(
        self,
        config: NavigationConfig,
        pose: Pose2,
        speed_bound_mps: Binary64,
        obstacles: Seq<ObstacleDisc>,
    ) -> Option<StoppingMargin> {
        let motions = Stopping::of(config, pose, speed_bound_mps);
        let body = (self.envelope)(motions);
        let corners = self.corners(pose, body->0);
        let margin = self.to_obstacles(
            motions,
            obstacles,
            obstacles.len(),
            self.to_boundary(corners, self.to_edges(config.bounds, corners, corners.len())),
        );
        if body is None || (exists|i: int|
            0 <= i < corners.len() && !(#[trigger] corners[i]).finite()) || (
        exists|i: int| 0 <= i < obstacles.len() && !proper(#[trigger] obstacles[i]))
            || !margin.clear() {
            None
        } else {
            Some(margin)
        }
    }
}

/// Whether an obstacle is well-formed.
pub open spec fn proper(o: ObstacleDisc) -> bool {
    o.center.finite() && motion_transition::nonnegative(o.radius_m)
}

/// Whether mathematical functions give every answer of the calls.
pub open spec fn measured<
    F: Fn(Elementary) -> Binary64,
    N: Fn(Stopping) -> Option<Vec<Point2>>,
    B: Fn(&Vec<Point2>) -> Option<Binary64>,
    M: Fn(Stopping, Point2, Binary64) -> Binary64,
>(host: F, envelope: N, boundary: B, disc: M, m: Margins) -> bool {
    &&& elementary::models(host, m.math)
    &&& forall|s: Stopping, r: Option<Vec<Point2>>| #[trigger]
        call_ensures(envelope, (s,), r) ==> outline(r) == (m.envelope)(s)
    &&& forall|c: &Vec<Point2>, r: Option<Binary64>| #[trigger]
        call_ensures(boundary, (c,), r) ==> r == (m.boundary)(c@)
    &&& forall|s: Stopping, p: Point2, radius: Binary64, r: Binary64| #[trigger]
        call_ensures(disc, (s, p, radius), r) ==> r == (m.disc)(s, p, radius)
}

/// How long the vehicle may take to react before it brakes: two periods.
pub open spec fn reaction(config: NavigationConfig) -> Binary64 {
    Binary64::of(TWO).times(Binary64::from_natural(config.control_period_ms)).over(
        Binary64::of(THOUSAND),
    )
}

/// The reaction time for which an envelope is made.
pub fn reaction_s(config: &NavigationConfig) -> (r: Binary64)
    ensures
        r == reaction(*config),
{
    Binary64::of(TWO).times(Binary64::from_natural(config.control_period_ms)).over(
        Binary64::of(THOUSAND),
    )
}

/// The corners of an envelope, where there is one.
pub open spec fn outline(body: Option<Vec<Point2>>) -> Option<Seq<Point2>> {
    match body {
        None => None,
        Some(corners) => Some(corners@),
    }
}

/// The margin of every stopping motion, where there is an envelope of them all
/// and it meets no edge, no travel boundary and no obstacle. The envelope is
/// asked for the motions from the pose with any curvature that the
/// configuration allows, and tells the corners of its rectangle as seen from
/// the pose and its margin to a disc.
pub fn certify<
    F: Fn(Elementary) -> Binary64,
    N: Fn(Stopping) -> Option<Vec<Point2>>,
    B: Fn(&Vec<Point2>) -> Option<Binary64>,
    M: Fn(Stopping, Point2, Binary64) -> Binary64,
>(
    config: &NavigationConfig,
    pose: Pose2,
    speed_bound_mps: Binary64,
    obstacles: &Vec<ObstacleDisc>,
    host: &F,
    envelope: &N,
    boundary: &B,
    disc: &M,
) -> (r: Option<StoppingMargin>)
    requires
        elementary::total(*host),
        call_requires(*envelope, (Stopping::of(*config, pose, speed_bound_mps),)),
        forall|c: &Vec<Point2>| #[trigger] call_requires(*boundary, (c,)),
        forall|p: Point2, radius: Binary64| #[trigger]
            call_requires(*disc, (Stopping::of(*config, pose, speed_bound_mps), p, radius)),
    ensures
        forall|m: Margins| #[trigger]
            measured(*host, *envelope, *boundary, *disc, m) ==> r == m.certified(
                *config,
                pose,
                speed_bound_mps,
                obstacles@,
            ),
        exists|body: Option<Vec<Point2>>|
            {
                &&& #[trigger] call_ensures(
                    *envelope,
                    (Stopping::of(*config, pose, speed_bound_mps),),
                    body,
                )
                &&& r is Some ==> body is Some
            },
{
    let motions: Stopping = Stopping::of(*config, pose, speed_bound_mps);
    let body: Option<Vec<Point2>> = envelope(motions);
    let seen: &Vec<Point2> = match &body {
        None => {
            return None;
        },
        Some(corners) => corners,
    };
    let corners: Vec<Point2> = place_corners(pose, seen, host);
    let mut margin: StoppingMargin = StoppingMargin {
        clearance_m: Binary64::of(INFINITE),
        constraint: StoppingConstraint::MinX,
    };
    assert forall|m: Margins| #[trigger] measured(*host, *envelope, *boundary, *disc, m) implies corners@
        == m.corners(pose, seen@) by {
        assert(elementary::models(*host, m.math));
    }
    let mut i: usize = 0;
    while i < corners.len()
        invariant
            i <= corners@.len(),
            call_ensures(*envelope, (motions,), body),
            outline(body) == Some(seen@),
            forall|m: Margins| #[trigger]
                measured(*host, *envelope, *boundary, *disc, m) ==> (m.envelope)(motions) == Some(
                    seen@,
                ),
            motions == Stopping::of(*config, pose, speed_bound_mps),
            forall|j: int| 0 <= j < i ==> (#[trigger] corners@[j]).finite(),
            forall|m: Margins| #[trigger]
                measured(*host, *envelope, *boundary, *disc, m) ==> corners@ == m.corners(pose, seen@)
                    && margin == m.to_edges(config.bounds, corners@, i as nat),
        decreases corners@.len() - i,
    {
        if !corners[i].valid() {
            assert forall|m: Margins| #[trigger] measured(*host, *envelope, *boundary, *disc, m) implies
                m.certified(*config, pose, speed_bound_mps, obstacles@) is None by {
                assert(!m.corners(pose, seen@)[i as int].finite());
            }
            return None;
        }
        margin = margin.after_corner(config.bounds, corners[i]);
        i += 1;
    }
    if let Some(clearance) = boundary(&corners) {
        margin = margin.or_smaller(clearance, StoppingConstraint::TravelBoundary);
    }
    let ghost edged = margin;
    assert(forall|m: Margins| #[trigger]
        measured(*host, *envelope, *boundary, *disc, m) ==> edged == m.to_boundary(
            corners@,
            m.to_edges(config.bounds, corners@, corners@.len()),
        ));
    let mut k: usize = 0;
    while k < obstacles.len()
        invariant
            k <= obstacles@.len(),
            elementary::total(*host),
            forall|p: Point2, radius: Binary64| #[trigger]
                call_requires(*disc, (motions, p, radius)),
            motions == Stopping::of(*config, pose, speed_bound_mps),
            call_ensures(*envelope, (motions,), body),
            forall|j: int| 0 <= j < k ==> proper(#[trigger] obstacles@[j]),
            forall|m: Margins| #[trigger]
                measured(*host, *envelope, *boundary, *disc, m) ==> margin == m.to_obstacles(
                    motions,
                    obstacles@,
                    k as nat,
                    edged,
                ),
        decreases obstacles@.len() - k,
    {
        let o: ObstacleDisc = obstacles[k];
        if !o.center.valid() || !motion_transition::is_nonnegative(o.radius_m) {
            assert(!proper(obstacles@[k as int]));
            return None;
        }
        let local: Point2 = pose.world_to_body(o.center, host);
        let clearance: Binary64 = disc(motions, local, o.radius_m);
        assert forall|m: Margins| #[trigger] measured(*host, *envelope, *boundary, *disc, m) implies clearance
            == (m.disc)(motions, pose.seen(m.math, o.center), o.radius_m) by {
            assert(elementary::models(*host, m.math));
        }
        if clearance.at_most(margin.clearance_m) {
            margin =
            StoppingMargin {
                clearance_m: clearance,
                constraint: StoppingConstraint::Obstacle { index: k },
            };
        }
        k += 1;
    }
    if margin.clear() {
        Some(margin)
    } else {
        None
    }
}

fn place_corners<F: Fn(Elementary) -> Binary64>(pose: Pose2, body: &Vec<Point2>, host: &F) -> (r: Vec<
    Point2,
>)
    requires
        elementary::total(*host),
    ensures
        forall|m: spec_fn(Elementary) -> Binary64| #[trigger]
            elementary::models(*host, m) ==> r@ == body@.map_values(
                |p: Point2| pose.placed(m, p),
            ),
{
    let mut r: Vec<Point2> = Vec::new();
    while r.len() < body.len()
        invariant
            r@.len() <= body@.len(),
            elementary::total(*host),
            forall|m: spec_fn(Elementary) -> Binary64| #[trigger]
                elementary::models(*host, m) ==> forall|i: int|
                    0 <= i < r@.len() ==> #[trigger] r@[i] == pose.placed(m, body@[i]),
        decreases body@.len() - r@.len(),
    {
        let p: Point2 = pose.body_to_world(body[r.len()], host);
        r.push(p);
    }
    assert forall|m: spec_fn(Elementary) -> Binary64| #[trigger]
        elementary::models(*host, m) implies r@ == body@.map_values(
        |p: Point2| pose.placed(m, p),
    ) by {
        assert(r@ =~= body@.map_values(|p: Point2| pose.placed(m, p)));
    }
    r
}

/// What is certified is clear: no obstacle is touched and no edge crossed.
pub proof fn law_certified_margins_are_clear(
    m: Margins,
    config: NavigationConfig,
    pose: Pose2,
    speed_bound_mps: Binary64,
    obstacles: Seq<ObstacleDisc>,
)
    ensures
        m.certified(config, pose, speed_bound_mps, obstacles) matches Some(margin) ==> margin.clear()
            && Binary64::of(ZERO).le(margin.clearance_m),
{
}

/// No edge's difference is smaller than the margin over the corners so far, and
/// the margin is one of those differences or still without bound.
proof fn lemma_edges(m: Margins, bounds: Rect, corners: Seq<Point2>, n: nat)
    requires
        n <= corners.len(),
    ensures
        ({
            let margin = m.to_edges(bounds, corners, n);
            &&& !margin.clearance_m.nan()
            &&& forall|i: int|
                0 <= i < n ==> {
                    let p = #[trigger] corners[i];
                    &&& !p.x_m.minus(bounds.min_x_m).lt(margin.clearance_m)
                    &&& !bounds.max_x_m.minus(p.x_m).lt(margin.clearance_m)
                    &&& !p.y_m.minus(bounds.min_y_m).lt(margin.clearance_m)
                    &&& !bounds.max_y_m.minus(p.y_m).lt(margin.clearance_m)
                }
            &&& margin.clearance_m == Binary64::of(INFINITE) || exists|i: int|
                0 <= i < n && meets_edge(bounds, #[trigger] corners[i], margin)
            &&& margin.clearance_m == Binary64::of(INFINITE) ==> margin.constraint
                == StoppingConstraint::MinX
            &&& !(margin.constraint is Obstacle) && !(margin.constraint is TravelBoundary)
        }),
    decreases n,
{
    if n > 0 {
        lemma_edges(m, bounds, corners, (n - 1) as nat);
        let before = m.to_edges(bounds, corners, (n - 1) as nat);
        let margin = m.to_edges(bounds, corners, n);
        let p = corners[n - 1];
        if margin != before {
            assert(meets_edge(bounds, p, margin));
        } else if margin.clearance_m != Binary64::of(INFINITE) {
            let i = choose|i: int|
                0 <= i < n - 1 && meets_edge(bounds, #[trigger] corners[i], before);
            assert(meets_edge(bounds, corners[i], margin));
        }
    }
}

/// Whether a margin is the distance of a corner to the edge that it names.
pub open spec fn meets_edge(bounds: Rect, p: Point2, margin: StoppingMargin) -> bool {
    match margin.constraint {
        StoppingConstraint::MinX => margin.clearance_m == p.x_m.minus(bounds.min_x_m),
        StoppingConstraint::MaxX => margin.clearance_m == bounds.max_x_m.minus(p.x_m),
        StoppingConstraint::MinY => margin.clearance_m == p.y_m.minus(bounds.min_y_m),
        StoppingConstraint::MaxY => margin.clearance_m == bounds.max_y_m.minus(p.y_m),
        _ => false,
    }
}

/// The margin only falls over the obstacles, and none of their discs is nearer.
proof fn lemma_obstacles(
    m: Margins,
    motions: Stopping,
    obstacles: Seq<ObstacleDisc>,
    n: nat,
    margin: StoppingMargin,
)
    requires
        n <= obstacles.len(),
        !margin.clearance_m.nan(),
        !(margin.constraint is Obstacle),
    ensures
        ({
            let after = m.to_obstacles(motions, obstacles, n, margin);
            &&& after.clearance_m.le(margin.clearance_m)
            &&& after == margin || (after.constraint matches StoppingConstraint::Obstacle { index }
                && exists|i: int|
                {
                    &&& 0 <= i < n
                    &&& index == i as usize
                    &&& after.clearance_m == (m.disc)(
                        motions,
                        motions.pose.seen(m.math, (#[trigger] obstacles[i]).center),
                        obstacles[i].radius_m,
                    )
                })
            &&& forall|i: int|
                0 <= i < n ==> {
                    let c = (m.disc)(
                        motions,
                        motions.pose.seen(m.math, (#[trigger] obstacles[i]).center),
                        obstacles[i].radius_m,
                    );
                    c.nan() || (after.clearance_m.le(c) && (after.constraint is Obstacle
                        || after.clearance_m.lt(c)))
                }
        }),
    decreases n,
{
    if n > 0 {
        lemma_obstacles(m, motions, obstacles, (n - 1) as nat, margin);
    }
}

/// A difference that is not negative orders its terms, also where the second
/// term or the first one is infinite.
proof fn lemma_inside(a: Binary64, b: Binary64, clearance: Binary64)
    requires
        a.finite() || b.finite(),
        !a.nan(),
        !b.nan(),
        Binary64::of(ZERO).le(clearance),
        !a.minus(b).lt(clearance),
    ensures
        clearance.le(a.minus(b)),
        b.le(a),
{
    if a.finite() && b.finite() {
        signs::law_differences_order_their_terms(a, b);
    } else {
        reveal(Binary64::spec_plus);
    }
}

/// Where a margin is certified, every corner of the envelope in the world lies
/// in the field, and the clearance is at most its distance to each of the four
/// edges. The corners are those that the envelope of the motions has, seen from
/// the pose. A field has edges that are numbers.
pub proof fn law_certified_corners_lie_in_the_field(
    m: Margins,
    config: NavigationConfig,
    pose: Pose2,
    speed_bound_mps: Binary64,
    obstacles: Seq<ObstacleDisc>,
    i: int,
)
    requires
        m.certified(config, pose, speed_bound_mps, obstacles) is Some,
        !config.bounds.min_x_m.nan(),
        !config.bounds.max_x_m.nan(),
        !config.bounds.min_y_m.nan(),
        !config.bounds.max_y_m.nan(),
        0 <= i < (m.envelope)(Stopping::of(config, pose, speed_bound_mps))->0.len(),
    ensures
        ({
            let clearance = m.certified(
                config,
                pose,
                speed_bound_mps,
                obstacles,
            )->0.clearance_m;
            let corner = pose.placed(
                m.math,
                (m.envelope)(Stopping::of(config, pose, speed_bound_mps))->0[i],
            );
            let field = config.bounds;
            &&& field.min_x_m.le(corner.x_m) && corner.x_m.le(field.max_x_m)
            &&& field.min_y_m.le(corner.y_m) && corner.y_m.le(field.max_y_m)
            &&& clearance.le(corner.x_m.minus(field.min_x_m))
            &&& clearance.le(field.max_x_m.minus(corner.x_m))
            &&& clearance.le(corner.y_m.minus(field.min_y_m))
            &&& clearance.le(field.max_y_m.minus(corner.y_m))
        }),
{
    let motions = Stopping::of(config, pose, speed_bound_mps);
    let body = (m.envelope)(motions)->0;
    let corners = m.corners(pose, body);
    let corner = corners[i];
    assert(corner == pose.placed(m.math, body[i]));
    assert(corner.finite());
    let edged = m.to_edges(config.bounds, corners, corners.len());
    let bounded = m.to_boundary(corners, edged);
    lemma_edges(m, config.bounds, corners, corners.len());
    lemma_obstacles(m, motions, obstacles, obstacles.len(), bounded);
    let clearance = m.certified(config, pose, speed_bound_mps, obstacles)->0.clearance_m;
    assert(clearance.le(edged.clearance_m));
    assert(Binary64::of(ZERO).le(clearance));
    lemma_inside(corner.x_m, config.bounds.min_x_m, clearance);
    lemma_inside(config.bounds.max_x_m, corner.x_m, clearance);
    lemma_inside(corner.y_m, config.bounds.min_y_m, clearance);
    lemma_inside(config.bounds.max_y_m, corner.y_m, clearance);
}

/// Where a margin is certified, no obstacle's disc meets the envelope and none
/// is nearer to it than the clearance, and neither is the travel boundary. A
/// disc is measured where it is seen from the pose. A measure that is no number
/// bounds nothing.
pub proof fn law_certified_motions_meet_nothing(
    m: Margins,
    config: NavigationConfig,
    pose: Pose2,
    speed_bound_mps: Binary64,
    obstacles: Seq<ObstacleDisc>,
)
    requires
        m.certified(config, pose, speed_bound_mps, obstacles) is Some,
    ensures
        ({
            let motions = Stopping::of(config, pose, speed_bound_mps);
            let clearance = m.certified(
                config,
                pose,
                speed_bound_mps,
                obstacles,
            )->0.clearance_m;
            let corners = (m.envelope)(motions)->0.map_values(
                |p: Point2| pose.placed(m.math, p),
            );
            &&& forall|i: int|
                0 <= i < obstacles.len() ==> {
                    let c = (m.disc)(
                        motions,
                        pose.seen(m.math, (#[trigger] obstacles[i]).center),
                        obstacles[i].radius_m,
                    );
                    c.nan() || (clearance.le(c) && Binary64::of(ZERO).lt(c))
                }
            &&& (m.boundary)(corners) matches Some(c) ==> c.nan() || (clearance.le(c)
                && Binary64::of(ZERO).le(c))
        }),
{
    let motions = Stopping::of(config, pose, speed_bound_mps);
    let corners = m.corners(pose, (m.envelope)(motions)->0);
    let edged = m.to_edges(config.bounds, corners, corners.len());
    lemma_edges(m, config.bounds, corners, corners.len());
    lemma_obstacles(
        m,
        motions,
        obstacles,
        obstacles.len(),
        m.to_boundary(corners, edged),
    );
}

/// A certified clearance is attained: it is that of the constraint it names, at
/// one of the corners, at the travel boundary or at the obstacle of that index.
/// Only where nothing bounds it is it without bound.
pub proof fn law_certified_margins_are_attained(
    m: Margins,
    config: NavigationConfig,
    pose: Pose2,
    speed_bound_mps: Binary64,
    obstacles: Seq<ObstacleDisc>,
)
    requires
        m.certified(config, pose, speed_bound_mps, obstacles) is Some,
        obstacles.len() <= usize::MAX,
    ensures
        ({
            let motions = Stopping::of(config, pose, speed_bound_mps);
            let margin = m.certified(config, pose, speed_bound_mps, obstacles)->0;
            let corners = (m.envelope)(motions)->0.map_values(
                |p: Point2| pose.placed(m.math, p),
            );
            match margin.constraint {
                StoppingConstraint::Obstacle { index } => {
                    &&& index < obstacles.len()
                    &&& margin.clearance_m == (m.disc)(
                        motions,
                        pose.seen(m.math, obstacles[index as int].center),
                        obstacles[index as int].radius_m,
                    )
                },
                StoppingConstraint::TravelBoundary => (m.boundary)(corners) == Some(
                    margin.clearance_m,
                ),
                _ => margin.clearance_m == Binary64::of(INFINITE) || exists|i: int|
                    0 <= i < corners.len() && meets_edge(
                        config.bounds,
                        #[trigger] corners[i],
                        margin,
                    ),
            }
        }),
{
    let motions = Stopping::of(config, pose, speed_bound_mps);
    let corners = m.corners(pose, (m.envelope)(motions)->0);
    let edged = m.to_edges(config.bounds, corners, corners.len());
    lemma_edges(m, config.bounds, corners, corners.len());
    lemma_obstacles(
        m,
        motions,
        obstacles,
        obstacles.len(),
        m.to_boundary(corners, edged),
    );
}

/// The motions that are certified are all those that the configuration allows:
/// from the pose, at up to the speed, with its sharpest curvature, and with a
/// reaction of twice the control period in seconds, up to rounding.
pub proof fn law_motions_allow_for_two_periods(
    config: NavigationConfig,
    pose: Pose2,
    speed_bound_mps: Binary64,
)
    requires
        config.control_period_ms < HIDDEN,
    ensures
        ({
            let motions = Stopping::of(config, pose, speed_bound_mps);
            let exact = 2 * config.control_period_ms * conversion::one();
            let scaled = motions.reaction_s.magnitude() * 1000;
            &&& motions.config == config && motions.pose == pose
            &&& motions.speed_bound_mps == speed_bound_mps
            &&& motions.max_curvature_per_m == config.max_curvature_per_m
            &&& motions.reaction_s.finite() && !motions.reaction_s.negative()
            &&& (2 * HIDDEN) * scaled <= (2 * HIDDEN + 1) * exact + HIDDEN * 1000
            &&& (2 * HIDDEN - 1) * exact <= (2 * HIDDEN) * scaled + HIDDEN * 1000
        }),
{
    let period = Binary64::from_natural(config.control_period_ms);
    laws::law_small_naturals_are_exact(config.control_period_ms);
    vstd::arithmetic::power2::lemma2_to64();
    vstd::arithmetic::power2::lemma2_to64_rest();
    constants::lemma_whole(TWO, 1024, 2, 51);
    constants::lemma_whole(THOUSAND, 1032, 1000, 43);
    constants::lemma_whole_product(
        Binary64::of(TWO),
        period,
        2,
        config.control_period_ms as nat,
    );
    constants::lemma_whole_quotient(
        Binary64::of(TWO).times(period),
        Binary64::of(THOUSAND),
        2 * config.control_period_ms as nat,
        1000,
    );
}

} // verus!
