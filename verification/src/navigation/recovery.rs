//! Recovery within the unchanged footprint, clearance and steering limits.
use crate::autonomy::Point2;
use crate::binary64::conversion;
use crate::binary64::laws;
use crate::binary64::signs;
use crate::binary64::values::{EIGHT, HALF, ONE, THOUSAND, TWO, ZERO};
use crate::binary64::Binary64;
use crate::elementary::Elementary;
use crate::elementary;
use crate::motion_transition;
use crate::navigation::primitive_envelope::ErrorBound;
use crate::navigation::{NavigationConfig, Rect};
use crate::safety;
use vstd::prelude::*;

verus! {

#[derive(Clone, Copy, Debug, PartialEq, Eq, Structural)]
pub enum ForwardSearchExit {
    NotRun,
    Found,
    OpenEmpty,
    NodeBudget,
    TerminalBudget,
    InvalidStart,
}

impl Default for ForwardSearchExit {
    fn default() -> (r: Self)
        ensures
            r == ForwardSearchExit::NotRun,
    {
        ForwardSearchExit::NotRun
    }
}

#[derive(Clone, Copy, Debug, PartialEq, Eq, Structural)]
pub struct PrimitiveGridFailure {
    pub continuous_domain: bool,
    pub sample_index: usize,
    pub from_cell: Option<usize>,
    pub to_cell: Option<usize>,
    pub blocked_cell: Option<usize>,
}

#[derive(Clone, Copy, Debug, PartialEq, Eq, Structural)]
pub struct ForwardSearchWork {
    pub expanded_nodes: usize,
    pub generated_nodes: usize,
    pub allocated_nodes: usize,
    pub primitive_attempts: usize,
    pub primitive_rejections: usize,
    pub first_primitive_rejection: Option<PrimitiveGridFailure>,
    pub exit: ForwardSearchExit,
}

/// A sum that stops at the largest count.
pub open spec fn capped(a: usize, b: usize) -> usize {
    if a + b > usize::MAX {
        usize::MAX
    } else {
        (a + b) as usize
    }
}

impl ForwardSearchWork {
    pub open spec fn none() -> Self {
        ForwardSearchWork {
            expanded_nodes: 0,
            generated_nodes: 0,
            allocated_nodes: 0,
            primitive_attempts: 0,
            primitive_rejections: 0,
            first_primitive_rejection: None,
            exit: ForwardSearchExit::NotRun,
        }
    }

    /// The work of two searches, one after the other. Counts add up, the first
    /// rejection stays, the last exit counts.
    pub open spec fn with(self, other: Self) -> Self {
        ForwardSearchWork {
            expanded_nodes: capped(self.expanded_nodes, other.expanded_nodes),
            generated_nodes: capped(self.generated_nodes, other.generated_nodes),
            allocated_nodes: capped(self.allocated_nodes, other.allocated_nodes),
            primitive_attempts: capped(self.primitive_attempts, other.primitive_attempts),
            primitive_rejections: capped(self.primitive_rejections, other.primitive_rejections),
            first_primitive_rejection: if self.first_primitive_rejection is Some {
                self.first_primitive_rejection
            } else {
                other.first_primitive_rejection
            },
            exit: other.exit,
        }
    }

    pub fn accumulate(&mut self, other: Self)
        ensures
            *final(self) == old(self).with(other),
    {
        self.expanded_nodes = self.expanded_nodes.saturating_add(other.expanded_nodes);
        self.generated_nodes = self.generated_nodes.saturating_add(other.generated_nodes);
        self.allocated_nodes = self.allocated_nodes.saturating_add(other.allocated_nodes);
        self.primitive_attempts = self.primitive_attempts.saturating_add(other.primitive_attempts);
        self.primitive_rejections = self.primitive_rejections.saturating_add(
            other.primitive_rejections,
        );
        if self.first_primitive_rejection.is_none() {
            self.first_primitive_rejection = other.first_primitive_rejection;
        }
        self.exit = other.exit;
    }
}

impl Default for ForwardSearchWork {
    fn default() -> (r: Self)
        ensures
            r == Self::none(),
    {
        ForwardSearchWork {
            expanded_nodes: 0,
            generated_nodes: 0,
            allocated_nodes: 0,
            primitive_attempts: 0,
            primitive_rejections: 0,
            first_primitive_rejection: None,
            exit: ForwardSearchExit::NotRun,
        }
    }
}

#[derive(Clone, Copy, Debug, PartialEq, Eq, Structural)]
pub struct ForwardSearchDiagnostics {
    pub ordinary: ForwardSearchWork,
    pub recovery: ForwardSearchWork,
    pub recovery_attempted: bool,
    pub recovery_accepted: bool,
    pub recovery_active: bool,
    pub node_budget_exhausted: bool,
}

impl ForwardSearchDiagnostics {
    pub open spec fn none() -> Self {
        ForwardSearchDiagnostics {
            ordinary: ForwardSearchWork::none(),
            recovery: ForwardSearchWork::none(),
            recovery_attempted: false,
            recovery_accepted: false,
            recovery_active: false,
            node_budget_exhausted: false,
        }
    }

    pub fn is_empty(&self) -> (r: bool)
        ensures
            r == (*self == Self::none()),
    {
        let none: ForwardSearchDiagnostics = ForwardSearchDiagnostics::default();
        *self == none
    }
}

impl Default for ForwardSearchDiagnostics {
    fn default() -> (r: Self)
        ensures
            r == Self::none(),
    {
        ForwardSearchDiagnostics {
            ordinary: ForwardSearchWork::default(),
            recovery: ForwardSearchWork::default(),
            recovery_attempted: false,
            recovery_accepted: false,
            recovery_active: false,
            node_budget_exhausted: false,
        }
    }
}

/// An obstacle.
#[derive(Clone, Copy, Debug)]
pub struct ObstacleDisc {
    pub center: Point2,
    pub radius_m: Binary64,
}

/// The space in which recovery may move, with what it has done.
#[derive(Debug)]
pub struct RecoveryGrid {
    pub active: bool,
    pub diagnostics: ForwardSearchDiagnostics,
    pub next_leg_error: ErrorBound,
    pub normal_path_completed: bool,
    pub obstacles: Vec<ObstacleDisc>,
    pub bounds: Rect,
    pub radius: Binary64,
    pub maximum_curvature: Binary64,
}

/// The distance to stop from the smallest start, with two control periods of
/// reaction.
pub open spec fn restart_distance(config: NavigationConfig) -> Binary64 {
    let period = Binary64::from_natural(config.control_period_ms).over(Binary64::of(THOUSAND));
    let speed = Binary64::of(HALF).times(
        config.max_speed_mps.min(config.max_accel_mps2.times(period)),
    );
    Binary64::of(TWO).times(period).times(speed).plus(
        speed.times(speed).over(Binary64::of(TWO).times(config.max_decel_mps2)),
    )
}

fn restart_distance_of(config: &NavigationConfig) -> (r: Binary64)
    ensures
        r == restart_distance(*config),
{
    let period: Binary64 = Binary64::from_natural(config.control_period_ms).over(
        Binary64::of(THOUSAND),
    );
    let speed: Binary64 = Binary64::of(HALF).times(
        config.max_speed_mps.min(config.max_accel_mps2.times(period)),
    );
    Binary64::of(TWO).times(period).times(speed).plus(
        speed.times(speed).over(Binary64::of(TWO).times(config.max_decel_mps2)),
    )
}

/// The point of a segment nearest to another point.
pub open spec fn nearest_on(from: Point2, to: Point2, point: Point2) -> Point2 {
    let dx = to.x_m.minus(from.x_m);
    let dy = to.y_m.minus(from.y_m);
    let squared = dx.times(dx).plus(dy.times(dy));
    let fraction = if squared.same(Binary64::of(ZERO)) {
        Binary64::of(ZERO)
    } else {
        point.x_m.minus(from.x_m).times(dx).plus(point.y_m.minus(from.y_m).times(dy)).over(
            squared,
        ).clamp(Binary64::of(ZERO), Binary64::of(ONE))
    };
    Point2 { x_m: from.x_m.plus(fraction.times(dx)), y_m: from.y_m.plus(fraction.times(dy)) }
}

fn nearest_point(from: Point2, to: Point2, point: Point2) -> (r: Point2)
    ensures
        r == nearest_on(from, to, point),
{
    let dx: Binary64 = to.x_m.minus(from.x_m);
    let dy: Binary64 = to.y_m.minus(from.y_m);
    let squared: Binary64 = dx.times(dx).plus(dy.times(dy));
    let fraction: Binary64 = if squared.equals(Binary64::of(ZERO)) {
        Binary64::of(ZERO)
    } else {
        point.x_m.minus(from.x_m).times(dx).plus(point.y_m.minus(from.y_m).times(dy)).over(
            squared,
        ).clamp(Binary64::of(ZERO), Binary64::of(ONE))
    };
    Point2 { x_m: from.x_m.plus(fraction.times(dx)), y_m: from.y_m.plus(fraction.times(dy)) }
}

/// Whether a disc lies in a rectangle.
pub open spec fn in_bounds(bounds: Rect, point: Point2, radius: Binary64) -> bool {
    &&& !point.x_m.minus(radius).lt(bounds.min_x_m)
    &&& !bounds.max_x_m.lt(point.x_m.plus(radius))
    &&& !point.y_m.minus(radius).lt(bounds.min_y_m)
    &&& !bounds.max_y_m.lt(point.y_m.plus(radius))
}

fn is_in_bounds(bounds: Rect, point: Point2, radius: Binary64) -> (r: bool)
    ensures
        r == in_bounds(bounds, point, radius),
{
    !point.x_m.minus(radius).less(bounds.min_x_m) && !bounds.max_x_m.less(point.x_m.plus(radius))
        && !point.y_m.minus(radius).less(bounds.min_y_m) && !bounds.max_y_m.less(
        point.y_m.plus(radius),
    )
}

impl RecoveryGrid {
    /// The space of a configuration. Its radius is that of the whole body, with
    /// clearance and the distance that the smallest restart takes to stop, so
    /// that a clear route never ends where not even that restart is allowed.
    pub fn new(
        config: &NavigationConfig,
        body_radius_m: Binary64,
        obstacles: Vec<ObstacleDisc>,
    ) -> (r: Self)
        ensures
            !r.active,
            r.diagnostics == ForwardSearchDiagnostics::none(),
            r.next_leg_error == ErrorBound::none(),
            !r.normal_path_completed,
            r.obstacles == obstacles,
            r.bounds == config.bounds,
            r.radius == body_radius_m.plus(config.clearance_m).plus(restart_distance(*config)),
            r.maximum_curvature == config.max_curvature_per_m,
    {
        RecoveryGrid {
            active: false,
            diagnostics: ForwardSearchDiagnostics::default(),
            next_leg_error: ErrorBound::default(),
            normal_path_completed: false,
            obstacles,
            bounds: config.bounds,
            radius: body_radius_m.plus(config.clearance_m).plus(restart_distance_of(config)),
            maximum_curvature: config.max_curvature_per_m,
        }
    }

    /// Whether an obstacle is clear of a capsule.
    pub open spec fn clears(
        m: spec_fn(Elementary) -> Binary64,
        from: Point2,
        to: Point2,
        radius: Binary64,
        obstacle: ObstacleDisc,
    ) -> bool {
        radius.plus(obstacle.radius_m).lt(
            m(nearest_on(from, to, obstacle.center).separation(obstacle.center)),
        )
    }

    /// Whether the capsule around a segment is clear. The domain is convex, so
    /// both end discs enclose the capsule between them.
    pub open spec fn free(
        &self,
        m: spec_fn(Elementary) -> Binary64,
        inside: spec_fn(Point2, Binary64) -> bool,
        from: Point2,
        to: Point2,
        padding: Binary64,
    ) -> bool {
        let radius = self.radius.plus(padding);
        let dx = to.x_m.minus(from.x_m);
        let dy = to.y_m.minus(from.y_m);
        &&& from.finite()
        &&& to.finite()
        &&& motion_transition::nonnegative(padding)
        &&& in_bounds(self.bounds, from, radius)
        &&& inside(from, radius)
        &&& in_bounds(self.bounds, to, radius)
        &&& inside(to, radius)
        &&& dx.times(dx).plus(dy.times(dy)).finite()
        &&& forall|i: int|
            0 <= i < self.obstacles@.len() ==> Self::clears(
                m,
                from,
                to,
                radius,
                #[trigger] self.obstacles@[i],
            )
    }

    /// Whether the capsule around a segment is clear, where `inside` says
    /// whether a disc lies on the permitted side of the travel boundary.
    pub fn segment_clear<F: Fn(Elementary) -> Binary64, G: Fn(Point2, Binary64) -> bool>(
        &self,
        from: Point2,
        to: Point2,
        padding: Binary64,
        host: &F,
        inside: &G,
    ) -> (r: bool)
        requires
            elementary::total(*host),
            forall|p: Point2, radius: Binary64| #[trigger] call_requires(*inside, (p, radius)),
        ensures
            forall|m: spec_fn(Elementary) -> Binary64, s: spec_fn(Point2, Binary64) -> bool|
                #[trigger] elementary::models(*host, m) && #[trigger] encloses(*inside, s) ==> r
                    == self.free(m, s, from, to, padding),
    {
        if !from.valid() || !to.valid() || !motion_transition::is_nonnegative(padding) {
            return false;
        }
        let radius: Binary64 = self.radius.plus(padding);
        if !is_in_bounds(self.bounds, from, radius) || !inside(from, radius) {
            return false;
        }
        if !is_in_bounds(self.bounds, to, radius) || !inside(to, radius) {
            return false;
        }
        let dx: Binary64 = to.x_m.minus(from.x_m);
        let dy: Binary64 = to.y_m.minus(from.y_m);
        if !dx.times(dx).plus(dy.times(dy)).is_finite() {
            return false;
        }
        let mut i: usize = 0;
        while i < self.obstacles.len()
            invariant
                i <= self.obstacles@.len(),
                radius == self.radius.plus(padding),
                elementary::total(*host),
                forall|m: spec_fn(Elementary) -> Binary64| #[trigger]
                    elementary::models(*host, m) ==> forall|j: int|
                        0 <= j < i ==> Self::clears(
                            m,
                            from,
                            to,
                            radius,
                            #[trigger] self.obstacles@[j],
                        ),
            decreases self.obstacles@.len() - i,
        {
            let obstacle: ObstacleDisc = self.obstacles[i];
            let nearest: Point2 = nearest_point(from, to, obstacle.center);
            let gap: Binary64 = nearest.distance(obstacle.center, host);
            if !radius.plus(obstacle.radius_m).less(gap) {
                assert forall|m: spec_fn(Elementary) -> Binary64| #[trigger]
                    elementary::models(*host, m) implies !Self::clears(
                    m,
                    from,
                    to,
                    radius,
                    self.obstacles@[i as int],
                ) by {}
                return false;
            }
            i += 1;
        }
        true
    }

    pub fn enable_recovery(&mut self)
        ensures
            *final(self) == (RecoveryGrid {
                active: true,
                diagnostics: ForwardSearchDiagnostics {
                    recovery_active: true,
                    ..old(self).diagnostics
                },
                ..*old(self)
            }),
    {
        self.active = true;
        self.diagnostics.recovery_active = true;
    }

    /// The padding for a curve of an arc length: a curve whose curvature is at
    /// most `K` stays within `K L^2 / 8` of its chord.
    pub open spec fn tube(&self, arc_length_m: Binary64, position_error_m: Binary64) -> Binary64 {
        self.maximum_curvature.times(arc_length_m.times(arc_length_m)).over(
            Binary64::of(EIGHT),
        ).plus(position_error_m)
    }

    /// Whether a modelled segment is clear, by its arc length and not its
    /// chord: continuously while recovery is active, else by the grid, whose
    /// answer is given.
    pub fn motion_transition_clear_with_error<
        F: Fn(Elementary) -> Binary64,
        G: Fn(Point2, Binary64) -> bool,
    >(
        &self,
        from: Point2,
        to: Point2,
        arc_length_m: Binary64,
        position_error_m: Binary64,
        grid_clear: bool,
        host: &F,
        inside: &G,
    ) -> (r: bool)
        requires
            elementary::total(*host),
            forall|p: Point2, radius: Binary64| #[trigger] call_requires(*inside, (p, radius)),
        ensures
            forall|m: spec_fn(Elementary) -> Binary64, s: spec_fn(Point2, Binary64) -> bool|
                #[trigger] elementary::models(*host, m) && #[trigger] encloses(*inside, s) ==> r
                    == (motion_transition::nonnegative(arc_length_m)
                    && motion_transition::nonnegative(position_error_m) && if self.active {
                    self.free(m, s, from, to, self.tube(arc_length_m, position_error_m))
                } else {
                    grid_clear
                }),
    {
        if !motion_transition::is_nonnegative(arc_length_m) || !motion_transition::is_nonnegative(
            position_error_m,
        ) {
            return false;
        }
        if self.active {
            let padding: Binary64 = self.maximum_curvature.times(
                arc_length_m.times(arc_length_m),
            ).over(Binary64::of(EIGHT)).plus(position_error_m);
            self.segment_clear(from, to, padding, host, inside)
        } else {
            grid_clear
        }
    }
}

/// Whether a mathematical predicate gives every answer of a call.
pub open spec fn encloses<G: Fn(Point2, Binary64) -> bool>(
    inside: G,
    s: spec_fn(Point2, Binary64) -> bool,
) -> bool {
    forall|p: Point2, radius: Binary64, r: bool| #[trigger]
        call_ensures(inside, (p, radius), r) ==> r == s(p, radius)
}

/// A rectangle that holds the discs at both ends of a segment holds each disc
/// between them.
pub proof fn law_bounds_are_convex(
    bounds: Rect,
    from: Point2,
    to: Point2,
    between: Point2,
    radius: Binary64,
)
    requires
        from.finite(),
        to.finite(),
        between.finite(),
        radius.finite(),
        in_bounds(bounds, from, radius),
        in_bounds(bounds, to, radius),
        from.x_m.le(between.x_m) && between.x_m.le(to.x_m) || to.x_m.le(between.x_m)
            && between.x_m.le(from.x_m),
        from.y_m.le(between.y_m) && between.y_m.le(to.y_m) || to.y_m.le(between.y_m)
            && between.y_m.le(from.y_m),
    ensures
        in_bounds(bounds, between, radius),
{
    let low_x = if from.x_m.le(between.x_m) { from.x_m } else { to.x_m };
    let high_x = if between.x_m.le(to.x_m) { to.x_m } else { from.x_m };
    let low_y = if from.y_m.le(between.y_m) { from.y_m } else { to.y_m };
    let high_y = if between.y_m.le(to.y_m) { to.y_m } else { from.y_m };
    laws::law_sums_are_monotone(low_x, between.x_m, radius);
    laws::law_sums_are_monotone(between.x_m, high_x, radius);
    laws::law_sums_are_monotone(low_y, between.y_m, radius);
    laws::law_sums_are_monotone(between.y_m, high_y, radius);
}

/// Work only adds up, and the order of the earlier searches does not matter.
pub proof fn law_work_adds_up(a: ForwardSearchWork, b: ForwardSearchWork, c: ForwardSearchWork)
    ensures
        a.with(b).with(c) == a.with(b.with(c)),
        a.with(b).expanded_nodes >= a.expanded_nodes,
        ForwardSearchWork::none().with(a) == a,
{
}

/// A segment that is clear keeps the disc at both of its ends within the field:
/// with its radius it does not reach over any of the four edges, and the ends
/// themselves lie in the field. The radius is that of the space and the padding.
pub proof fn law_clear_segments_keep_to_the_field(
    grid: RecoveryGrid,
    m: spec_fn(Elementary) -> Binary64,
    inside: spec_fn(Point2, Binary64) -> bool,
    from: Point2,
    to: Point2,
    padding: Binary64,
    start: bool,
)
    requires
        grid.free(m, inside, from, to, padding),
        grid.radius.plus(padding).finite(),
        Binary64::of(ZERO).le(grid.radius.plus(padding)),
        !grid.bounds.min_x_m.nan(),
        !grid.bounds.max_x_m.nan(),
        !grid.bounds.min_y_m.nan(),
        !grid.bounds.max_y_m.nan(),
    ensures
        ({
            let p = if start {
                from
            } else {
                to
            };
            let radius = grid.radius.plus(padding);
            let field = grid.bounds;
            &&& field.min_x_m.le(p.x_m.minus(radius)) && p.x_m.plus(radius).le(field.max_x_m)
            &&& field.min_y_m.le(p.y_m.minus(radius)) && p.y_m.plus(radius).le(field.max_y_m)
            &&& field.min_x_m.le(p.x_m) && p.x_m.le(field.max_x_m)
            &&& field.min_y_m.le(p.y_m) && p.y_m.le(field.max_y_m)
            &&& inside(p, radius)
        }),
{
    let p = if start {
        from
    } else {
        to
    };
    let radius = grid.radius.plus(padding);
    let zero = Binary64::of(ZERO);
    laws::law_sums_are_monotone(zero, radius, p.x_m);
    laws::law_sums_are_monotone(zero, radius, p.y_m);
    signs::law_zero_adds_nothing(p.x_m, zero);
    signs::law_zero_adds_nothing(p.y_m, zero);
    signs::law_products_commute(p.x_m, radius);
    signs::law_products_commute(p.y_m, radius);
}

/// A segment that is clear is farther from each obstacle than the two radii
/// together: at the point of it that is taken for the nearest one. That is its
/// start where the obstacle lies behind it, its end where it lies beyond it, and
/// otherwise the part of the way that the scalar product says.
pub proof fn law_clear_segments_keep_from_obstacles(
    grid: RecoveryGrid,
    m: spec_fn(Elementary) -> Binary64,
    inside: spec_fn(Point2, Binary64) -> bool,
    from: Point2,
    to: Point2,
    padding: Binary64,
    i: int,
)
    requires
        grid.free(m, inside, from, to, padding),
        0 <= i < grid.obstacles@.len(),
        to.x_m.minus(from.x_m).finite(),
        to.y_m.minus(from.y_m).finite(),
    ensures
        ({
            let o = grid.obstacles@[i];
            let (dx, dy) = (to.x_m.minus(from.x_m), to.y_m.minus(from.y_m));
            let along = o.center.x_m.minus(from.x_m).times(dx).plus(
                o.center.y_m.minus(from.y_m).times(dy),
            );
            let squared = dx.times(dx).plus(dy.times(dy));
            let part = along.over(squared);
            let q = nearest_on(from, to, o.center);
            &&& grid.radius.plus(padding).plus(o.radius_m).lt(
                m(
                    Elementary::Length {
                        x: q.x_m.minus(o.center.x_m),
                        y: q.y_m.minus(o.center.y_m),
                    },
                ),
            )
            &&& squared.zero() || part.le(Binary64::of(ZERO)) ==> q.x_m.same(from.x_m)
                && q.y_m.same(from.y_m)
            &&& !squared.zero() && Binary64::of(ONE).le(part) ==> q.x_m == from.x_m.plus(dx)
                && q.y_m == from.y_m.plus(dy)
            &&& !squared.zero() && Binary64::of(ZERO).le(part) && part.le(Binary64::of(ONE))
                ==> q.x_m == from.x_m.plus(part.times(dx)) && q.y_m == from.y_m.plus(
                part.times(dy),
            )
        }),
{
    let o = grid.obstacles@[i];
    let (dx, dy) = (to.x_m.minus(from.x_m), to.y_m.minus(from.y_m));
    let zero = Binary64::of(ZERO);
    signs::law_zero_and_one(dx);
    signs::law_zero_and_one(dy);
    signs::law_zero_adds_nothing(from.x_m, zero.times(dx));
    signs::law_zero_adds_nothing(from.y_m, zero.times(dy));
    let along = o.center.x_m.minus(from.x_m).times(dx).plus(
        o.center.y_m.minus(from.y_m).times(dy),
    );
    let squared = dx.times(dx).plus(dy.times(dy));
    let part = along.over(squared);
    if part.zero() {
        signs::law_zero_makes_zero(dx, part);
        signs::law_zero_makes_zero(dy, part);
        signs::law_zero_adds_nothing(from.x_m, part.times(dx));
        signs::law_zero_adds_nothing(from.y_m, part.times(dy));
    }
}

/// The smallest restart takes the way of two periods at its speed and the way
/// of braking from it: neither is longer than the distance kept, and a stronger
/// brake keeps no more of it. Its speed is half of what one period of
/// acceleration gives, and of the largest one.
pub proof fn law_restarts_have_room_to_stop(config: NavigationConfig, other: NavigationConfig)
    requires
        other == (NavigationConfig { max_decel_mps2: other.max_decel_mps2, ..config }),
        motion_transition::nonnegative(config.max_speed_mps),
        motion_transition::nonnegative(config.max_accel_mps2),
        safety::positive(config.max_decel_mps2),
        safety::positive(other.max_decel_mps2),
        config.max_decel_mps2.le(other.max_decel_mps2),
        Binary64::of(TWO).times(other.max_decel_mps2).finite(),
        Binary64::of(ZERO).lt(Binary64::of(TWO).times(config.max_decel_mps2)),
        restart_distance(config).finite(),
    ensures
        ({
            let period = Binary64::from_natural(config.control_period_ms).over(
                Binary64::of(THOUSAND),
            );
            let gained = config.max_accel_mps2.times(period);
            let half = Binary64::of(HALF);
            let speed = if config.max_speed_mps.le(gained) {
                half.times(config.max_speed_mps)
            } else {
                half.times(gained)
            };
            &&& !gained.nan() ==> Binary64::of(TWO).times(period).times(speed).le(
                restart_distance(config),
            )
            &&& !gained.nan() ==> speed.times(speed).over(
                Binary64::of(TWO).times(config.max_decel_mps2),
            ).le(restart_distance(config))
            &&& restart_distance(other).le(restart_distance(config))
        }),
{
    let zero = Binary64::of(ZERO);
    let two = Binary64::of(TWO);
    let period = Binary64::from_natural(config.control_period_ms).over(Binary64::of(THOUSAND));
    let gained = config.max_accel_mps2.times(period);
    let speed = Binary64::of(HALF).times(config.max_speed_mps.min(gained));
    let way = two.times(period).times(speed);
    let square = speed.times(speed);
    let strong = two.times(other.max_decel_mps2);
    let weak = two.times(config.max_decel_mps2);
    let braking = square.over(weak);
    laws::law_infinite_sum(way, braking);
    lemma_finite_parts(two.times(period), speed);
    lemma_finite_parts(two, period);
    reveal(Binary64::spec_over);
    lemma_reals(config.control_period_ms);
    signs::law_products_are_monotone(config.max_decel_mps2, other.max_decel_mps2, two);
    signs::law_products_follow_the_signs(two, period);
    signs::law_products_follow_the_signs(two.times(period), speed);
    signs::law_products_follow_the_signs(speed, speed);
    signs::law_products_follow_the_signs(config.max_accel_mps2, period);
    signs::law_products_follow_the_signs(Binary64::of(HALF), config.max_speed_mps.min(gained));
    assert(square.finite());
    signs::law_quotients_are_monotone(square, square, weak, strong);
    signs::law_quotients_are_monotone(square, square, strong, strong);
    laws::law_sums_are_monotone(zero, braking, way);
    laws::law_sums_are_monotone(zero, way, braking);
    signs::law_zero_adds_nothing(way, zero);
    signs::law_zero_adds_nothing(braking, zero);
    signs::law_products_commute(way, braking);
    signs::law_products_commute(way, square.over(strong));
    laws::law_sums_are_monotone(square.over(strong), braking, way);
}

proof fn lemma_finite_parts(a: Binary64, b: Binary64)
    requires
        a.times(b).finite(),
    ensures
        a.finite(),
        b.finite(),
{
    reveal(Binary64::spec_times);
}

/// A period in seconds is not negative.
proof fn lemma_reals(ms: u64)
    ensures
        ({
            let period = Binary64::from_natural(ms).over(Binary64::of(THOUSAND));
            Binary64::of(ZERO).le(period)
        }),
{
    reveal(Binary64::spec_from_natural);
    reveal(Binary64::spec_over);
    let n = Binary64::from_natural(ms);
    let k = Binary64::of(THOUSAND);
    laws::law_rounding_is_monotone(
        false,
        0,
        ms as nat * conversion::one(),
        1,
    );
    laws::lemma_zero_magnitude(k);
    laws::law_rounding_is_monotone(
        false,
        0,
        n.magnitude() * vstd::arithmetic::power2::pow2(1074),
        k.magnitude(),
    );
}

/// The tube round a chord takes in what its arc bulges and the error: it is
/// neither less than the error nor than an eighth of the curvature times the
/// square of the arc's length, and without an arc it is the error alone.
pub proof fn law_tubes_take_in_the_bulge_and_the_error(
    grid: RecoveryGrid,
    arc_length_m: Binary64,
    position_error_m: Binary64,
)
    requires
        motion_transition::nonnegative(arc_length_m),
        motion_transition::nonnegative(position_error_m),
        motion_transition::nonnegative(grid.maximum_curvature),
        grid.tube(arc_length_m, position_error_m).finite(),
    ensures
        ({
            let tube = grid.tube(arc_length_m, position_error_m);
            let bulge = grid.maximum_curvature.times(arc_length_m.times(arc_length_m)).over(
                Binary64::of(EIGHT),
            );
            &&& position_error_m.le(tube)
            &&& bulge.le(tube)
            &&& arc_length_m.zero() ==> tube.same(position_error_m)
        }),
{
    let zero = Binary64::of(ZERO);
    let square = arc_length_m.times(arc_length_m);
    let product = grid.maximum_curvature.times(square);
    let bulge = product.over(Binary64::of(EIGHT));
    laws::law_infinite_sum(bulge, position_error_m);
    if product.nan() {
        laws::law_nan_propagates(product, Binary64::of(EIGHT));
    }
    if square.nan() {
        laws::law_nan_propagates(grid.maximum_curvature, square);
    }
    signs::law_products_follow_the_signs(arc_length_m, arc_length_m);
    signs::law_products_follow_the_signs(grid.maximum_curvature, square);
    signs::law_products_take_their_sign(product, Binary64::of(EIGHT));
    if arc_length_m.zero() {
        signs::law_zero_makes_zero(arc_length_m, arc_length_m);
        signs::law_zero_makes_zero(grid.maximum_curvature, square);
    }
    if product.zero() {
        signs::law_zero_parts_are_zero(product, Binary64::of(EIGHT));
        signs::law_zero_adds_nothing(position_error_m, bulge);
    }
    assert(zero.le(bulge));
    laws::law_sums_are_monotone(zero, bulge, position_error_m);
    laws::law_sums_are_monotone(zero, position_error_m, bulge);
    signs::law_zero_adds_nothing(position_error_m, zero);
    signs::law_zero_adds_nothing(bulge, zero);
    signs::law_products_commute(bulge, position_error_m);
}

} // verus!
