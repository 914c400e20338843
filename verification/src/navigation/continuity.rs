//! A cached seed is a numerical hint, never a path certificate.
use super::terminal::laws;
use super::terminal::solvers::{Approach, Arrival, Model, Primitive, Terminal};
use super::terminal::solvers;
use super::terminal::{Connection, Ledger, TerminalBudget, TwoArcConnection, TwoArcSeed};
use crate::autonomy::{Point2, Pose2};
use crate::binary64::values::{HALF, ONE, QUARTER, TEN_THOUSANDTH, ZERO};
use crate::binary64::Binary64;
use crate::elementary::Elementary;
use crate::elementary;
use crate::sensors::Timestamp;
use vstd::prelude::*;

verus! {

#[derive(Clone, Copy, Debug)]
pub struct CachedTerminalSeed {
    pub goal: Point2,
    pub heading: Binary64,
    pub seed: TwoArcSeed,
    /// The time of the predicted next state, not of an adopted one.
    pub anchor_at: Timestamp,
    pub anchor_pose: Pose2,
    /// Set once an adjusted hint has recovered a connection that both a cold
    /// and an unadjusted solve had missed.
    pub prefer_continuation: bool,
}

impl CachedTerminalSeed {
    /// How far ahead of the anchor a pose is.
    pub open spec fn progress(self, m: spec_fn(Elementary) -> Binary64, pose: Pose2) -> Binary64 {
        self.anchor_pose.seen(m, pose.point()).x_m
    }

    /// The seed moved along to a pose.
    pub open spec fn rebased(
        self,
        m: spec_fn(Elementary) -> Binary64,
        now: Timestamp,
        pose: Pose2,
    ) -> Option<TwoArcSeed> {
        let forward = self.progress(m, pose);
        if !pose.finite() || !self.anchor_pose.finite() {
            None
        } else if now.0 <= self.anchor_at.0 {
            Some(self.seed)
        } else if !forward.finite() {
            None
        } else if forward.le(Binary64::of(ZERO)) {
            Some(self.seed)
        } else {
            self.seed.after_travel(forward)
        }
    }

    pub fn for_pose<F: Fn(Elementary) -> Binary64>(
        self,
        now: Timestamp,
        pose: Pose2,
        host: &F,
    ) -> (r: Option<TwoArcSeed>)
        requires
            elementary::total(*host),
        ensures
            forall|m: spec_fn(Elementary) -> Binary64| #[trigger]
                elementary::models(*host, m) ==> r == self.rebased(m, now, pose),
    {
        if !pose.valid() || !self.anchor_pose.valid() {
            return None;
        }
        if now.0 <= self.anchor_at.0 {
            return Some(self.seed);
        }
        let forward: Binary64 = self.anchor_pose.world_to_body(pose.point(), host).x_m;
        if !forward.is_finite() {
            return None;
        }
        if forward.at_most(Binary64::of(ZERO)) {
            return Some(self.seed);
        }
        self.seed.after_travel(forward)
    }

    /// Whether the hint is for a goal.
    pub open spec fn fits(self, goal: Point2, heading: Binary64) -> bool {
        self.goal.same(goal) && self.heading.same(heading)
    }
}

/// What a connection attempt gives: the connection, and whether to keep
/// preferring continuations.
pub open spec fn kept(r: Option<(TwoArcConnection, bool)>) -> Option<(Connection, bool)> {
    match r {
        None => None,
        Some((connection, keep)) => Some((connection@, keep)),
    }
}

impl Model {
    pub open spec fn hint(
        self,
        cached: Option<CachedTerminalSeed>,
        a: Approach,
        heading: Binary64,
    ) -> Option<CachedTerminalSeed> {
        match cached {
            Some(hint) if hint.fits(a.goal, heading) => Some(hint),
            _ => None,
        }
    }

    pub open spec fn hinted_seed(
        self,
        hint: Option<CachedTerminalSeed>,
        now: Option<Timestamp>,
        start: Pose2,
    ) -> Option<TwoArcSeed> {
        match (hint, now) {
            (Some(h), Some(at)) => h.rebased(self.math, at, start),
            _ => None,
        }
    }

    /// A connection after both the preferred continuation and the ordinary
    /// solves have failed: one from the rebased seed, where the vehicle has
    /// moved on since the seed was made.
    pub open spec fn rescued(
        self,
        b: Ledger,
        hint: Option<CachedTerminalSeed>,
        now: Option<Timestamp>,
        a: Approach,
        heading: Binary64,
    ) -> (Ledger, Option<(Connection, bool)>) {
        let rebased = self.hinted_seed(hint, now, a.start);
        if b.work.budget_exhausted || hint is None || hint->0.prefer_continuation || now is None
            || (now->0).0 <= hint->0.anchor_at.0 || hint->0.progress(self.math, a.start).le(
            Binary64::of(ZERO),
        ) || rebased is None {
            (b, None)
        } else {
            match self.continued(b, a, heading, rebased->0) {
                (after, None) => (after, None),
                (after, Some(connection)) => (after, Some((connection, true))),
            }
        }
    }

    /// A connection by the ordinary solves, then by rescue.
    pub open spec fn ordinary(
        self,
        b: Ledger,
        hint: Option<CachedTerminalSeed>,
        now: Option<Timestamp>,
        a: Approach,
        heading: Binary64,
    ) -> (Ledger, Option<(Connection, bool)>) {
        let seed = match hint {
            None => None,
            Some(h) => Some(h.seed),
        };
        match self.approached(b, a, heading, seed) {
            (after, Some(connection)) => (
                after,
                Some(
                    (
                        connection,
                        hint is Some && hint->0.prefer_continuation && connection.used_seed,
                    ),
                ),
            ),
            (after, None) => self.rescued(after, hint, now, a, heading),
        }
    }

    /// A connection to a goal: where a hint prefers it, first the continuation
    /// from the rebased seed.
    pub open spec fn linked(
        self,
        b: Ledger,
        cached: Option<CachedTerminalSeed>,
        now: Option<Timestamp>,
        a: Approach,
        heading: Binary64,
    ) -> (Ledger, Option<(Connection, bool)>) {
        let hint = self.hint(cached, a, heading);
        let rebased = self.hinted_seed(hint, now, a.start);
        if hint is Some && hint->0.prefer_continuation && rebased is Some {
            match self.continued(b, a, heading, rebased->0) {
                (after, Some(connection)) => (after, Some((connection, true))),
                (after, None) => self.ordinary(after, hint, now, a, heading),
            }
        } else {
            self.ordinary(b, hint, now, a, heading)
        }
    }
}

impl<'a, F: Fn(Elementary) -> Binary64, D: Fn(Primitive) -> Option<Arrival>> Terminal<'a, F, D> {
    /// The seed of a hint moved along to the start.
    fn rebased_seed(
        &self,
        hint: Option<CachedTerminalSeed>,
        now: Option<Timestamp>,
        start: Pose2,
    ) -> (r: Option<TwoArcSeed>)
        requires
            self.total(),
        ensures
            forall|m: Model| #[trigger]
                self.described(m) ==> r == m.hinted_seed(hint, now, start),
    {
        let r: Option<TwoArcSeed> = match hint {
            None => None,
            Some(hint) => match now {
                None => None,
                Some(at) => hint.for_pose(at, start, self.host),
            },
        };
        assert forall|m: Model| #[trigger] self.described(m) implies r == m.hinted_seed(
            hint,
            now,
            start,
        ) by {
            assert(elementary::models(*self.host, m.math));
        }
        r
    }

    /// A last attempt, from the rebased seed.
    fn rescue(
        &self,
        budget: &mut TerminalBudget,
        hint: Option<CachedTerminalSeed>,
        now: Option<Timestamp>,
        a: Approach,
        heading: Binary64,
    ) -> (r: Option<(TwoArcConnection, bool)>)
        requires
            self.total(),
            old(budget)@.sound(),
            old(budget)@.work.room(3),
        ensures
            final(budget)@.sound(),
            final(budget)@.work.grown(old(budget)@.work, 3),
            forall|m: Model| #[trigger]
                self.described(m) ==> (final(budget)@, kept(r)) == m.rescued(
                    old(budget)@,
                    hint,
                    now,
                    a,
                    heading,
                ),
    {
        if budget.snapshot().budget_exhausted {
            return None;
        }
        let moved_on: bool = match hint {
            None => false,
            Some(hint) => match now {
                None => false,
                Some(at) => {
                    let forward: Binary64 = hint.anchor_pose.world_to_body(
                        a.start.point(),
                        self.host,
                    ).x_m;
                    assert forall|m: Model| #[trigger] self.described(m) implies forward
                        == hint.progress(m.math, a.start) by {
                        assert(elementary::models(*self.host, m.math));
                    }
                    !hint.prefer_continuation && at.0 > hint.anchor_at.0 && !forward.at_most(
                        Binary64::of(ZERO),
                    )
                },
            },
        };
        if !moved_on {
            return None;
        }
        match self.rebased_seed(hint, now, a.start) {
            None => None,
            Some(seed) => match self.continue_two_arc(budget, a, heading, seed) {
                None => None,
                Some(connection) => Some((connection, true)),
            },
        }
    }

    /// The ordinary solves, then a last attempt.
    fn ordinary_connection(
        &self,
        budget: &mut TerminalBudget,
        hint: Option<CachedTerminalSeed>,
        now: Option<Timestamp>,
        a: Approach,
        heading: Binary64,
    ) -> (r: Option<(TwoArcConnection, bool)>)
        requires
            self.total(),
            old(budget)@.sound(),
            old(budget)@.work.room(7),
        ensures
            final(budget)@.sound(),
            final(budget)@.work.grown(old(budget)@.work, 7),
            forall|m: Model| #[trigger]
                self.described(m) ==> (final(budget)@, kept(r)) == m.ordinary(
                    old(budget)@,
                    hint,
                    now,
                    a,
                    heading,
                ),
    {
        let unadjusted: Option<TwoArcSeed> = match hint {
            None => None,
            Some(hint) => Some(hint.seed),
        };
        match self.two_arc(budget, a, heading, unadjusted) {
            Some(connection) => {
                let keep: bool = match hint {
                    None => false,
                    Some(hint) => hint.prefer_continuation && connection.used_seed,
                };
                Some((connection, keep))
            },
            None => self.rescue(budget, hint, now, a, heading),
        }
    }

    /// Connects to a goal, with a cached hint.
    pub fn terminal_connection(
        &self,
        budget: &mut TerminalBudget,
        cached: Option<CachedTerminalSeed>,
        now: Option<Timestamp>,
        a: Approach,
        heading: Binary64,
    ) -> (r: Option<(TwoArcConnection, bool)>)
        requires
            self.total(),
            old(budget)@.sound(),
            old(budget)@.work.room(10),
        ensures
            final(budget)@.sound(),
            final(budget)@.work.grown(old(budget)@.work, 10),
            forall|m: Model| #[trigger]
                self.described(m) ==> (final(budget)@, kept(r)) == m.linked(
                    old(budget)@,
                    cached,
                    now,
                    a,
                    heading,
                ),
    {
        let hint: Option<CachedTerminalSeed> = match cached {
            None => None,
            Some(hint) => if hint.goal.equals(a.goal) && hint.heading.equals(heading) {
                Some(hint)
            } else {
                None
            },
        };
        assert(forall|m: Model| #[trigger]
            self.described(m) ==> hint == m.hint(cached, a, heading));
        let prefer: bool = match hint {
            None => false,
            Some(hint) => hint.prefer_continuation,
        };
        if prefer {
            if let Some(seed) = self.rebased_seed(hint, now, a.start) {
                if let Some(connection) = self.continue_two_arc(budget, a, heading, seed) {
                    return Some((connection, true));
                }
            }
        }
        self.ordinary_connection(budget, hint, now, a, heading)
    }
}

/// The vertex near a pose, of those within a metre along the route.
pub open spec fn nearest_vertex(
    m: spec_fn(Elementary) -> Binary64,
    pose: Pose2,
    route: Seq<Point2>,
    index: int,
    travel: Binary64,
    nearest: int,
    distance: Binary64,
) -> int
    decreases route.len() - index,
{
    let further = travel.plus(m(route[index - 1].separation(route[index])));
    let candidate = m(pose.point().separation(route[index]));
    if index >= route.len() || Binary64::of(ONE).lt(further) {
        nearest
    } else if candidate.lt(distance) {
        nearest_vertex(m, pose, route, index + 1, further, index, candidate)
    } else {
        nearest_vertex(m, pose, route, index + 1, further, nearest, distance)
    }
}

/// The length of a route from one vertex to another.
pub open spec fn length_between(
    m: spec_fn(Elementary) -> Binary64,
    route: Seq<Point2>,
    from: int,
    to: int,
) -> Binary64
    decreases to - from,
{
    if to <= from {
        Binary64::of(ZERO)
    } else {
        length_between(m, route, from, to - 1).plus(m(route[to - 1].separation(route[to])))
    }
}

/// The length that is left of a route from a pose on.
pub open spec fn left(
    m: spec_fn(Elementary) -> Binary64,
    pose: Pose2,
    route: Seq<Point2>,
    progress: int,
) -> Option<Binary64> {
    if progress >= route.len() {
        None
    } else {
        let nearest = nearest_vertex(
            m,
            pose,
            route,
            progress + 1,
            Binary64::of(ZERO),
            progress,
            m(pose.point().separation(route[progress])),
        );
        let next = if nearest + 1 < route.len() {
            nearest + 1
        } else {
            route.len() - 1
        };
        let length = m(pose.point().separation(route[next])).plus(
            length_between(m, route, next, route.len() - 1),
        );
        if length.finite() {
            Some(length)
        } else {
            None
        }
    }
}

/// The length that is left of a route, by the progress rule of the tracker: no
/// shortcut across loops of the route.
pub fn remaining_length<F: Fn(Elementary) -> Binary64>(
    pose: Pose2,
    route: &[Point2],
    progress: usize,
    host: &F,
) -> (r: Option<Binary64>)
    requires
        elementary::total(*host),
    ensures
        forall|m: spec_fn(Elementary) -> Binary64| #[trigger]
            elementary::models(*host, m) ==> r == left(m, pose, route@, progress as int),
{
    if progress >= route.len() {
        return None;
    }
    let nearest: usize = find_nearest(pose, route, progress, host);
    let next: usize = if nearest + 1 < route.len() {
        nearest + 1
    } else {
        route.len() - 1
    };
    let ahead: Binary64 = pose.point().distance(route[next], host);
    let mut sum: Binary64 = Binary64::of(ZERO);
    let mut i: usize = next;
    while i < route.len() - 1
        invariant
            next <= i <= route@.len() - 1,
            elementary::total(*host),
            forall|m: spec_fn(Elementary) -> Binary64| #[trigger]
                elementary::models(*host, m) ==> sum == length_between(
                    m,
                    route@,
                    next as int,
                    i as int,
                ),
        decreases route@.len() - i,
    {
        let step: Binary64 = route[i].distance(route[i + 1], host);
        sum = sum.plus(step);
        i += 1;
    }
    let length: Binary64 = ahead.plus(sum);
    if length.is_finite() {
        Some(length)
    } else {
        None
    }
}

fn find_nearest<F: Fn(Elementary) -> Binary64>(
    pose: Pose2,
    route: &[Point2],
    progress: usize,
    host: &F,
) -> (r: usize)
    requires
        elementary::total(*host),
        progress < route@.len(),
    ensures
        r < route@.len(),
        forall|m: spec_fn(Elementary) -> Binary64| #[trigger]
            elementary::models(*host, m) ==> r == nearest_vertex(
                m,
                pose,
                route@,
                progress + 1,
                Binary64::of(ZERO),
                progress as int,
                m(pose.point().separation(route@[progress as int])),
            ),
{
    let mut nearest: usize = progress;
    let mut distance: Binary64 = pose.point().distance(route[progress], host);
    let mut travel: Binary64 = Binary64::of(ZERO);
    let mut index: usize = progress + 1;
    while index < route.len()
        invariant
            progress < index <= route@.len(),
            nearest < route@.len(),
            elementary::total(*host),
            forall|m: spec_fn(Elementary) -> Binary64| #[trigger]
                elementary::models(*host, m) ==> nearest_vertex(
                    m,
                    pose,
                    route@,
                    progress + 1,
                    Binary64::of(ZERO),
                    progress as int,
                    m(pose.point().separation(route@[progress as int])),
                ) == nearest_vertex(
                    m,
                    pose,
                    route@,
                    index as int,
                    travel,
                    nearest as int,
                    distance,
                ),
        decreases route@.len() - index,
    {
        let step: Binary64 = route[index - 1].distance(route[index], host);
        travel = travel.plus(step);
        if Binary64::of(ONE).less(travel) {
            return nearest;
        }
        let candidate: Binary64 = pose.point().distance(route[index], host);
        if candidate.less(distance) {
            nearest = index;
            distance = candidate;
        }
        index += 1;
    }
    nearest
}

/// A connection that keeps preferring continuations was itself solved from a
/// seed.
pub proof fn law_preference_takes_a_seed(
    m: Model,
    b: Ledger,
    cached: Option<CachedTerminalSeed>,
    now: Option<Timestamp>,
    a: Approach,
    heading: Binary64,
)
    ensures
        m.linked(b, cached, now, a, heading).1 matches Some((c, keep)) ==> (keep
            ==> c.used_seed && cached is Some && cached->0.fits(a.goal, heading)),
{
    let hint = m.hint(cached, a, heading);
    let rebased = m.hinted_seed(hint, now, a.start);
    assert forall|l: Ledger, s: TwoArcSeed|
        (#[trigger] m.continued(l, a, heading, s)).1 is Some implies m.continued(
        l,
        a,
        heading,
        s,
    ).1->0.used_seed by {
        let counted = l.counting(super::terminal::Event::SeedAttempt);
        solvers::law_connections_are_certified(
            m,
            counted,
            a,
            heading,
            Some(s),
            super::terminal::EndpointPolicy::ExactCenter,
        );
    }
}

/// A hint proves nothing: whatever is returned was solved anew from the current
/// start, and ends within the tolerances of an exact goal.
pub proof fn law_links_are_certified(
    m: Model,
    b: Ledger,
    cached: Option<CachedTerminalSeed>,
    now: Option<Timestamp>,
    a: Approach,
    heading: Binary64,
)
    ensures
        m.linked(b, cached, now, a, heading).1 matches Some((c, keep)) ==> m.certifies(
            c.endpoint,
            c.error,
            a.goal,
            Some(heading),
            super::terminal::EndpointPolicy::ExactCenter,
        ),
{
    let policy = super::terminal::EndpointPolicy::ExactCenter;
    assert forall|l: Ledger, s: Option<TwoArcSeed>| #[trigger]
        m.two_arc_solved(l, a, heading, s, policy).1 matches Some(c) implies m.certifies(
        m.two_arc_solved(l, a, heading, s, policy).1->0.endpoint,
        m.two_arc_solved(l, a, heading, s, policy).1->0.error,
        a.goal,
        Some(heading),
        policy,
    ) by {
        solvers::law_connections_are_certified(m, l, a, heading, s, policy);
    }
}

/// Unless a hint prefers its continuation, the ordinary solves come first: where
/// they connect, no rebased seed is tried, and nothing is preferred next time.
pub proof fn law_rebasing_comes_last(
    m: Model,
    b: Ledger,
    cached: Option<CachedTerminalSeed>,
    now: Option<Timestamp>,
    a: Approach,
    heading: Binary64,
)
    requires
        cached matches Some(h) ==> !h.prefer_continuation,
    ensures
        ({
            let hint = m.hint(cached, a, heading);
            let seed = match hint {
                None => None,
                Some(h) => Some(h.seed),
            };
            m.approached(b, a, heading, seed) matches (after, Some(c)) ==> m.linked(
                b,
                cached,
                now,
                a,
                heading,
            ) == (after, Some((c, false)))
        }),
{
}

/// Whatever a hint is tried for, the endpoint of the connection is turned from
/// the heading by no more than half the tolerance to either side, lies nearer
/// to the goal than a quarter of the tolerance and than a tenth of a
/// millimetre, each with the error of the model on top, and is driven from the
/// start of the approach. Left out is only a model error without bound with a
/// turn without bound.
pub proof fn law_links_keep_their_heading_to_both_sides(
    m: Model,
    b: Ledger,
    cached: Option<CachedTerminalSeed>,
    now: Option<Timestamp>,
    a: Approach,
    heading: Binary64,
)
    requires
        !m.config.goal_tolerance_m.times(Binary64::of(QUARTER)).nan(),
    ensures
        m.linked(b, cached, now, a, heading).1 matches Some((c, keep)) ==> ({
            let turn = (m.math)(Elementary::Turn { to: c.endpoint.yaw_rad, from: heading });
            let bound = m.config.goal_heading_tolerance_rad.times(Binary64::of(HALF));
            let off = (m.math)(
                Elementary::Length {
                    x: c.endpoint.x_m.minus(a.goal.x_m),
                    y: c.endpoint.y_m.minus(a.goal.y_m),
                },
            ).plus(c.error.position_m);
            &&& turn.finite() || c.error.heading_rad.finite() ==> turn.plus(
                c.error.heading_rad,
            ).le(bound) && turn.negated().plus(c.error.heading_rad).le(bound)
            &&& off.lt(Binary64::of(TEN_THOUSANDTH))
            &&& off.lt(m.config.goal_tolerance_m.times(Binary64::of(QUARTER)))
            &&& laws::driven_by_its_seed(m, a, c)
        }),
{
    let policy = super::terminal::EndpointPolicy::ExactCenter;
    law_links_are_certified(m, b, cached, now, a, heading);
    assert forall|l: Ledger, s: Option<TwoArcSeed>| #[trigger]
        m.two_arc_solved(l, a, heading, s, policy).1 is Some implies laws::driven_by_its_seed(
        m,
        a,
        m.two_arc_solved(l, a, heading, s, policy).1->0,
    ) by {
        laws::lemma_two_arc_solved(m, l, a, heading, s, policy);
    }
    if let Some((c, keep)) = m.linked(b, cached, now, a, heading).1 {
        laws::lemma_heading(m, c.endpoint, heading, c.error);
    }
}

/// A cached seed is used as it is up to the time of its anchor and where the
/// vehicle is not ahead of it, and after that less the way that the vehicle has
/// gone along the anchor's heading.
pub proof fn law_hints_follow_the_vehicle(
    hint: CachedTerminalSeed,
    m: spec_fn(Elementary) -> Binary64,
    now: Timestamp,
    pose: Pose2,
)
    requires
        pose.finite(),
        hint.anchor_pose.finite(),
    ensures
        ({
            let ahead = pose.x_m.minus(hint.anchor_pose.x_m).times(
                m(Elementary::Cosine(hint.anchor_pose.yaw_rad)),
            ).plus(
                pose.y_m.minus(hint.anchor_pose.y_m).times(
                    m(Elementary::Sine(hint.anchor_pose.yaw_rad)),
                ),
            );
            &&& now.0 <= hint.anchor_at.0 ==> hint.rebased(m, now, pose) == Some(hint.seed)
            &&& now.0 > hint.anchor_at.0 && ahead.finite() && ahead.le(Binary64::of(ZERO))
                ==> hint.rebased(m, now, pose) == Some(hint.seed)
            &&& now.0 > hint.anchor_at.0 && Binary64::of(ZERO).lt(ahead) && ahead.finite()
                ==> hint.rebased(m, now, pose) == hint.seed.after_travel(ahead)
            &&& now.0 > hint.anchor_at.0 && !ahead.finite() ==> hint.rebased(m, now, pose) is None
        }),
{
}

} // verus!
