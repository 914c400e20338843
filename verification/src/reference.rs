//! Projection onto a stretch of a polyline.
//!
//! The geometry is that of the polyline, not of the steering that it was made
//! from: nothing is claimed about curvature.
use crate::autonomy::Point2;
use crate::binary64::signs;
use crate::binary64::values::ZERO;
use crate::binary64::Binary64;
use crate::elementary::Elementary;
use crate::elementary;
use crate::tracking::MAX_PATH_POINTS;
use vstd::prelude::*;
use vstd::slice::slice_subrange;

verus! {

#[derive(Clone, Copy, Debug)]
pub struct ReferenceProjection {
    pub point: Point2,
    /// The direction of the selected segment.
    pub heading_rad: Binary64,
    /// The arc length from the start of the stretch.
    pub arc_m: Binary64,
    pub distance_m: Binary64,
}

/// The stretch of a path from the segment that leads to `progress` on, at most
/// a given arc length beyond that vertex. The last segment is clipped to that
/// length.
#[derive(Debug)]
pub struct PreparedReference<'a> {
    points: &'a [Point2],
    tail: &'a [Point2],
    final_admitted_m: Binary64,
}

/// A stretch with its points as sequences.
pub struct Stretch {
    pub points: Seq<Point2>,
    pub tail: Seq<Point2>,
    pub final_admitted_m: Binary64,
}

/// The length of the segment that starts at a vertex.
pub open spec fn length_at(
    m: spec_fn(Elementary) -> Binary64,
    path: Seq<Point2>,
    index: int,
) -> Binary64 {
    m(path[index].separation(path[index + 1]))
}

/// The end of a scan along a path: the last segment with the length admitted
/// of it, if any, or a refusal.
pub enum Scanned {
    Refused,
    Last(Option<(int, Binary64)>),
}

/// The scan from a segment on, with so much of the arc length beyond the
/// vertex of progress left and so much behind. Segments without length are
/// skipped.
pub open spec fn scanned(
    m: spec_fn(Elementary) -> Binary64,
    path: Seq<Point2>,
    progress: int,
    index: int,
    remaining: Binary64,
    arc: Binary64,
    last: Option<(int, Binary64)>,
) -> Scanned
    decreases path.len() - index,
{
    let length = length_at(m, path, index);
    let forward = index >= progress;
    let admitted = if forward {
        length.min(remaining)
    } else {
        length
    };
    if index + 1 >= path.len() {
        Scanned::Last(last)
    } else if !length.finite() {
        Scanned::Refused
    } else if length.same(Binary64::of(ZERO)) {
        scanned(m, path, progress, index + 1, remaining, arc, last)
    } else if !arc.plus(admitted).finite() {
        Scanned::Refused
    } else if forward && remaining.le(admitted) {
        Scanned::Last(Some((index, admitted)))
    } else {
        scanned(
            m,
            path,
            progress,
            index + 1,
            if forward {
                remaining.minus(admitted)
            } else {
                remaining
            },
            arc.plus(length),
            Some((index, admitted)),
        )
    }
}

pub open spec fn start_of(progress: int) -> int {
    if progress > 0 {
        progress - 1
    } else {
        0
    }
}

/// Whether a path and a budget can be scanned at all.
pub open spec fn admissible(path: Seq<Point2>, progress: int, max_advance_m: Binary64) -> bool {
    &&& 2 <= path.len() <= MAX_PATH_POINTS
    &&& progress < path.len()
    &&& max_advance_m.finite()
    &&& !max_advance_m.lt(Binary64::of(ZERO))
    &&& forall|i: int| 0 <= i < path.len() ==> (#[trigger] path[i]).finite()
}

/// The stretch of a path, where there is one.
pub open spec fn prepared(
    m: spec_fn(Elementary) -> Binary64,
    path: Seq<Point2>,
    progress: int,
    max_advance_m: Binary64,
) -> Option<Stretch> {
    let start = start_of(progress);
    if !admissible(path, progress, max_advance_m) {
        None
    } else {
        match scanned(m, path, progress, start, max_advance_m, Binary64::of(ZERO), None) {
            Scanned::Last(Some((last, admitted))) => Some(
                Stretch {
                    points: path.subrange(start, last + 2),
                    tail: path.subrange(start, path.len() as int),
                    final_admitted_m: admitted,
                },
            ),
            _ => None,
        }
    }
}

impl Stretch {
    /// Whether a segment has no length.
    pub open spec fn degenerate(self, m: spec_fn(Elementary) -> Binary64, i: int) -> bool {
        self.span(m, i).same(Binary64::of(ZERO))
    }

    /// The length of a segment, by the vector from its start to its end.
    pub open spec fn span(self, m: spec_fn(Elementary) -> Binary64, i: int) -> Binary64 {
        let a = self.points[i];
        let b = self.points[i + 1];
        m(Elementary::Length { x: b.x_m.minus(a.x_m), y: b.y_m.minus(a.y_m) })
    }

    /// The length admitted of a segment.
    pub open spec fn admitted(self, m: spec_fn(Elementary) -> Binary64, i: int) -> Binary64 {
        if i == self.points.len() - 2 {
            self.final_admitted_m
        } else {
            self.span(m, i)
        }
    }

    /// The arc length before a segment.
    pub open spec fn arc_before(self, m: spec_fn(Elementary) -> Binary64, i: nat) -> Binary64
        decreases i,
    {
        if i == 0 {
            Binary64::of(ZERO)
        } else if self.degenerate(m, i - 1) {
            self.arc_before(m, (i - 1) as nat)
        } else {
            self.arc_before(m, (i - 1) as nat).plus(self.admitted(m, i - 1))
        }
    }

    /// How far along a segment's direction a point lies from its start.
    pub open spec fn along(
        self,
        m: spec_fn(Elementary) -> Binary64,
        point: Point2,
        i: int,
    ) -> Binary64 {
        let a = self.points[i];
        let b = self.points[i + 1];
        let length = self.span(m, i);
        let ux = b.x_m.minus(a.x_m).over(length);
        let uy = b.y_m.minus(a.y_m).over(length);
        point.x_m.minus(a.x_m).times(ux).plus(point.y_m.minus(a.y_m).times(uy))
    }

    /// The point of a segment's admitted part nearest to a point.
    pub open spec fn candidate(
        self,
        m: spec_fn(Elementary) -> Binary64,
        point: Point2,
        i: int,
    ) -> ReferenceProjection {
        let a = self.points[i];
        let b = self.points[i + 1];
        let dx = b.x_m.minus(a.x_m);
        let dy = b.y_m.minus(a.y_m);
        let length = self.span(m, i);
        let travel = self.along(m, point, i).clamp(Binary64::of(ZERO), self.admitted(m, i));
        let projected = Point2 {
            x_m: a.x_m.plus(dx.over(length).times(travel)),
            y_m: a.y_m.plus(dy.over(length).times(travel)),
        };
        ReferenceProjection {
            point: projected,
            heading_rad: m(Elementary::Bearing { y: dy, x: dx }),
            arc_m: self.arc_before(m, i as nat).plus(travel),
            distance_m: m(point.separation(projected)),
        }
    }

    /// Whether the candidate of a segment can be represented.
    pub open spec fn representable(
        self,
        m: spec_fn(Elementary) -> Binary64,
        point: Point2,
        i: int,
    ) -> bool {
        let c = self.candidate(m, point, i);
        &&& self.along(m, point, i).finite()
        &&& c.point.finite()
        &&& c.arc_m.finite()
        &&& c.distance_m.finite()
    }

    /// The nearest candidate of the first `n` segments, the one with the
    /// smaller arc length of two equally near.
    pub open spec fn best(
        self,
        m: spec_fn(Elementary) -> Binary64,
        point: Point2,
        n: nat,
    ) -> Option<ReferenceProjection>
        decreases n,
    {
        if n == 0 {
            None
        } else {
            let before = self.best(m, point, (n - 1) as nat);
            let c = self.candidate(m, point, n - 1);
            if self.degenerate(m, n - 1) {
                before
            } else if before is None || closer(c, before->0) {
                Some(c)
            } else {
                before
            }
        }
    }

    /// The projection of a point onto the stretch.
    pub open spec fn projected(
        self,
        m: spec_fn(Elementary) -> Binary64,
        point: Point2,
    ) -> Option<ReferenceProjection> {
        let n = (self.points.len() - 1) as nat;
        if !point.finite() || exists|i: int|
            0 <= i < n && !self.degenerate(m, i) && !#[trigger] self.representable(m, point, i) {
            None
        } else {
            self.best(m, point, n)
        }
    }
}

pub open spec fn closer(a: ReferenceProjection, b: ReferenceProjection) -> bool {
    a.distance_m.lt(b.distance_m) || (a.distance_m.same(b.distance_m) && a.arc_m.lt(b.arc_m))
}

impl<'a> View for PreparedReference<'a> {
    type V = Stretch;

    closed spec fn view(&self) -> Stretch {
        Stretch {
            points: self.points@,
            tail: self.tail@,
            final_admitted_m: self.final_admitted_m,
        }
    }
}

impl<'a> PreparedReference<'a> {
    /// Checks a path once and borrows the stretch of it that projection may
    /// use. One value serves every projection of a control step.
    pub fn new<F: Fn(Elementary) -> Binary64>(
        path: &'a [Point2],
        progress: usize,
        max_advance_m: Binary64,
        host: &F,
    ) -> (r: Option<Self>)
        requires
            elementary::total(*host),
        ensures
            forall|m: spec_fn(Elementary) -> Binary64| #[trigger]
                elementary::models(*host, m) ==> match r {
                    None => prepared(m, path@, progress as int, max_advance_m) is None,
                    Some(reference) => prepared(m, path@, progress as int, max_advance_m) == Some(
                        reference@,
                    ),
                },
            r matches Some(reference) ==> reference@.points.len() >= 2 && reference@.tail.len()
                >= 2,
    {
        if path.len() < 2 || path.len() > MAX_PATH_POINTS || progress >= path.len()
            || !max_advance_m.is_finite() || max_advance_m.less(Binary64::of(ZERO)) || !all_valid(
            path,
        ) {
            return None;
        }
        let start: usize = if progress > 0 {
            progress - 1
        } else {
            0
        };
        match last_segment(path, progress, start, max_advance_m, host) {
            None => None,
            Some((last, final_admitted_m)) => {
                let points: &'a [Point2] = slice_subrange(path, start, last + 2);
                let tail: &'a [Point2] = slice_subrange(path, start, path.len());
                Some(PreparedReference { points, tail, final_admitted_m })
            },
        }
    }

    /// The points that projection may use.
    pub fn points(&self) -> (r: &'a [Point2])
        ensures
            r@ == self@.points,
    {
        self.points
    }

    /// A cursor from the same start through the actual end of the path.
    pub fn cursor_to_end(&self) -> (r: ReferenceCursor<'a>)
        ensures
            r@ == Cursor::initial(self@.tail),
    {
        ReferenceCursor {
            points: self.tail,
            segment: 0,
            arc_start_m: Binary64::of(ZERO),
            last_query_m: Binary64::of(ZERO),
            last_location: None,
        }
    }

    pub fn project<F: Fn(Elementary) -> Binary64>(&self, point: Point2, host: &F) -> (r: Option<
        ReferenceProjection,
    >)
        requires
            elementary::total(*host),
            self@.points.len() >= 2,
        ensures
            forall|m: spec_fn(Elementary) -> Binary64| #[trigger]
                elementary::models(*host, m) ==> r == self@.projected(m, point),
    {
        if !point.valid() {
            return None;
        }
        let mut best: Option<ReferenceProjection> = None;
        let mut arc_m: Binary64 = Binary64::of(ZERO);
        let count: usize = self.points.len();
        let mut i: usize = 0;
        while i < count - 1
            invariant
                i <= count - 1,
                count >= 2,
                count == self.points@.len(),
                elementary::total(*host),
                point.finite(),
                forall|m: spec_fn(Elementary) -> Binary64| #[trigger]
                    elementary::models(*host, m) ==> {
                        &&& best == self@.best(m, point, i as nat)
                        &&& arc_m == self@.arc_before(m, i as nat)
                        &&& forall|j: int|
                            0 <= j < i && !self@.degenerate(m, j)
                                ==> #[trigger] self@.representable(m, point, j)
                    },
            decreases count - i,
        {
            let a: Point2 = self.points[i];
            let b: Point2 = self.points[i + 1];
            let dx: Binary64 = b.x_m.minus(a.x_m);
            let dy: Binary64 = b.y_m.minus(a.y_m);
            let length_m: Binary64 = host(Elementary::Length { x: dx, y: dy });
            if length_m.equals(Binary64::of(ZERO)) {
                i += 1;
                continue ;
            }
            let admitted_m: Binary64 = if i == count - 2 {
                self.final_admitted_m
            } else {
                length_m
            };
            // Unit vectors avoid squaring long or tiny segments.
            let ux: Binary64 = dx.over(length_m);
            let uy: Binary64 = dy.over(length_m);
            let along_m: Binary64 = point.x_m.minus(a.x_m).times(ux).plus(
                point.y_m.minus(a.y_m).times(uy),
            );
            let travel_m: Binary64 = along_m.clamp(Binary64::of(ZERO), admitted_m);
            let projected: Point2 = Point2 {
                x_m: a.x_m.plus(ux.times(travel_m)),
                y_m: a.y_m.plus(uy.times(travel_m)),
            };
            let candidate: ReferenceProjection = ReferenceProjection {
                point: projected,
                heading_rad: host(Elementary::Bearing { y: dy, x: dx }),
                arc_m: arc_m.plus(travel_m),
                distance_m: point.distance(projected, host),
            };
            assert forall|m: spec_fn(Elementary) -> Binary64| #[trigger]
                elementary::models(*host, m) implies candidate == self@.candidate(
                m,
                point,
                i as int,
            ) && !self@.degenerate(m, i as int) && along_m == self@.along(m, point, i as int) by {}
            if !along_m.is_finite() || !projected.valid() || !candidate.arc_m.is_finite()
                || !candidate.distance_m.is_finite() {
                assert forall|m: spec_fn(Elementary) -> Binary64| #[trigger]
                    elementary::models(*host, m) implies self@.projected(m, point) is None by {
                    assert(!self@.representable(m, point, i as int));
                }
                return None;
            }
            let better: bool = match best {
                None => true,
                Some(held) => candidate.distance_m.less(held.distance_m)
                    || (candidate.distance_m.equals(held.distance_m) && candidate.arc_m.less(
                    held.arc_m,
                )),
            };
            if better {
                best = Some(candidate);
            }
            arc_m = arc_m.plus(admitted_m);
            i += 1;
        }
        best
    }
}

fn all_valid(path: &[Point2]) -> (r: bool)
    ensures
        r == forall|i: int| 0 <= i < path@.len() ==> (#[trigger] path@[i]).finite(),
{
    let mut i: usize = 0;
    while i < path.len()
        invariant
            i <= path@.len(),
            forall|j: int| 0 <= j < i ==> (#[trigger] path@[j]).finite(),
        decreases path@.len() - i,
    {
        if !path[i].valid() {
            assert(!path@[i as int].finite());
            return false;
        }
        i += 1;
    }
    true
}

fn last_segment<F: Fn(Elementary) -> Binary64>(
    path: &[Point2],
    progress: usize,
    start: usize,
    max_advance_m: Binary64,
    host: &F,
) -> (r: Option<(usize, Binary64)>)
    requires
        elementary::total(*host),
        start + 1 <= path@.len() <= MAX_PATH_POINTS,
    ensures
        r matches Some((last, _)) ==> start <= last < path@.len() - 1,
        forall|m: spec_fn(Elementary) -> Binary64| #[trigger]
            elementary::models(*host, m) ==> match scanned(
                m,
                path@,
                progress as int,
                start as int,
                max_advance_m,
                Binary64::of(ZERO),
                None,
            ) {
                Scanned::Last(Some((last, admitted))) => r == Some((last as usize, admitted))
                    && 0 <= last < path@.len(),
                _ => r is None,
            },
{
    let mut remaining_m: Binary64 = max_advance_m;
    let mut arc_m: Binary64 = Binary64::of(ZERO);
    let mut last: Option<(usize, Binary64)> = None;
    let mut index: usize = start;
    while index < path.len() - 1
        invariant
            start <= index <= path@.len() - 1,
            start + 1 <= path@.len() <= MAX_PATH_POINTS,
            elementary::total(*host),
            last matches Some((l, _)) ==> start <= l < index,
            forall|m: spec_fn(Elementary) -> Binary64| #[trigger]
                elementary::models(*host, m) ==> scanned(
                    m,
                    path@,
                    progress as int,
                    start as int,
                    max_advance_m,
                    Binary64::of(ZERO),
                    None,
                ) == scanned(
                    m,
                    path@,
                    progress as int,
                    index as int,
                    remaining_m,
                    arc_m,
                    match last {
                        None => None,
                        Some((l, admitted)) => Some((l as int, admitted)),
                    },
                ),
        decreases path@.len() - index,
    {
        let length_m: Binary64 = path[index].distance(path[index + 1], host);
        if !length_m.is_finite() {
            return None;
        }
        if length_m.equals(Binary64::of(ZERO)) {
            index += 1;
            continue ;
        }
        let forward: bool = index >= progress;
        let admitted_m: Binary64 = if forward {
            length_m.min(remaining_m)
        } else {
            length_m
        };
        if !arc_m.plus(admitted_m).is_finite() {
            return None;
        }
        last = Some((index, admitted_m));
        if forward && remaining_m.at_most(admitted_m) {
            return last;
        }
        arc_m = arc_m.plus(length_m);
        if forward {
            remaining_m = remaining_m.minus(admitted_m);
        }
        index += 1;
    }
    last
}

#[derive(Clone, Copy, Debug)]
pub struct ReferenceLocation {
    pub point: Point2,
    pub heading_rad: Binary64,
}

/// Looks up arc lengths along the rest of a path, forward only. Each segment is
/// visited at most once.
#[derive(Debug)]
pub struct ReferenceCursor<'a> {
    points: &'a [Point2],
    segment: usize,
    arc_start_m: Binary64,
    last_query_m: Binary64,
    last_location: Option<ReferenceLocation>,
}

/// A cursor with its points as a sequence.
pub struct Cursor {
    pub points: Seq<Point2>,
    pub segment: int,
    pub arc_start_m: Binary64,
    pub last_query_m: Binary64,
    pub last_location: Option<ReferenceLocation>,
}

impl<'a> View for ReferenceCursor<'a> {
    type V = Cursor;

    closed spec fn view(&self) -> Cursor {
        Cursor {
            points: self.points@,
            segment: self.segment as int,
            arc_start_m: self.arc_start_m,
            last_query_m: self.last_query_m,
            last_location: self.last_location,
        }
    }
}

impl Cursor {
    pub open spec fn initial(points: Seq<Point2>) -> Self {
        Cursor {
            points,
            segment: 0,
            arc_start_m: Binary64::of(ZERO),
            last_query_m: Binary64::of(ZERO),
            last_location: None,
        }
    }

    pub open spec fn sound(self) -> bool {
        0 <= self.segment < self.points.len() - 1
    }

    /// The end of the segment under the cursor.
    pub open spec fn end_of_segment(self, m: spec_fn(Elementary) -> Binary64) -> ReferenceLocation {
        let a = self.points[self.segment];
        let b = self.points[self.segment + 1];
        ReferenceLocation {
            point: b,
            heading_rad: m(
                Elementary::Bearing { y: b.y_m.minus(a.y_m), x: b.x_m.minus(a.x_m) },
            ),
        }
    }

    /// The location at an arc length within the segment under the cursor.
    pub open spec fn within_segment(
        self,
        m: spec_fn(Elementary) -> Binary64,
        arc_m: Binary64,
        length: Binary64,
    ) -> Option<ReferenceLocation> {
        let a = self.points[self.segment];
        let b = self.points[self.segment + 1];
        let fraction = arc_m.minus(self.arc_start_m).clamp(Binary64::of(ZERO), length).over(length);
        let point = Point2 {
            x_m: a.x_m.plus(b.x_m.minus(a.x_m).times(fraction)),
            y_m: a.y_m.plus(b.y_m.minus(a.y_m).times(fraction)),
        };
        if point.finite() {
            Some(ReferenceLocation { point, heading_rad: self.end_of_segment(m).heading_rad })
        } else {
            None
        }
    }

    /// The cursor moved on to the segment that holds an arc length, and the
    /// location there. Beyond the path's end it is the end itself.
    pub open spec fn sought(self, m: spec_fn(Elementary) -> Binary64, arc_m: Binary64) -> (
        Self,
        Option<ReferenceLocation>,
    )
        decreases self.points.len() - self.segment,
    {
        let length = length_at(m, self.points, self.segment);
        let end_m = self.arc_start_m.plus(length);
        let last = self.segment >= self.points.len() - 2;
        let long = Binary64::of(ZERO).lt(length);
        let passed = if long {
            Cursor { last_location: Some(self.end_of_segment(m)), ..self }
        } else {
            self
        };
        if !length.finite() || !end_m.finite() {
            (self, None)
        } else if long && (arc_m.le(end_m) || last) {
            (passed, self.within_segment(m, arc_m, length))
        } else if last {
            (passed, passed.last_location)
        } else {
            Cursor { arc_start_m: end_m, segment: self.segment + 1, ..passed }.sought(m, arc_m)
        }
    }

    /// The answer to a query. One that goes back is refused.
    pub open spec fn located(self, m: spec_fn(Elementary) -> Binary64, arc_m: Binary64) -> (
        Self,
        Option<ReferenceLocation>,
    ) {
        if !arc_m.finite() || arc_m.lt(self.last_query_m) {
            (self, None)
        } else {
            Cursor { last_query_m: arc_m, ..self }.sought(m, arc_m)
        }
    }
}

impl<'a> ReferenceCursor<'a> {
    pub fn at_arc<F: Fn(Elementary) -> Binary64>(&mut self, arc_m: Binary64, host: &F) -> (r: Option<
        ReferenceLocation,
    >)
        requires
            old(self)@.sound(),
            elementary::total(*host),
        ensures
            final(self)@.sound(),
            forall|m: spec_fn(Elementary) -> Binary64| #[trigger]
                elementary::models(*host, m) ==> (final(self)@, r) == old(self)@.located(m, arc_m),
    {
        if !arc_m.is_finite() || arc_m.less(self.last_query_m) {
            return None;
        }
        self.last_query_m = arc_m;
        let ghost start = self@;
        loop
            invariant
                self@.sound(),
                elementary::total(*host),
                start == (Cursor { last_query_m: arc_m, ..old(self)@ }),
                arc_m.finite() && !arc_m.lt(old(self)@.last_query_m),
                forall|m: spec_fn(Elementary) -> Binary64| #[trigger]
                    elementary::models(*host, m) ==> start.sought(m, arc_m) == self@.sought(
                        m,
                        arc_m,
                    ),
            decreases self.points@.len() - self.segment,
        {
            let a: Point2 = self.points[self.segment];
            let b: Point2 = self.points[self.segment + 1];
            let length: Binary64 = a.distance(b, host);
            let end_m: Binary64 = self.arc_start_m.plus(length);
            if !length.is_finite() || !end_m.is_finite() {
                return None;
            }
            let last: bool = self.segment == self.points.len() - 2;
            if Binary64::of(ZERO).less(length) {
                let heading_rad: Binary64 = host(
                    Elementary::Bearing { y: b.y_m.minus(a.y_m), x: b.x_m.minus(a.x_m) },
                );
                self.last_location = Some(ReferenceLocation { point: b, heading_rad });
                if arc_m.at_most(end_m) || last {
                    let fraction: Binary64 = arc_m.minus(self.arc_start_m).clamp(
                        Binary64::of(ZERO),
                        length,
                    ).over(length);
                    let point: Point2 = Point2 {
                        x_m: a.x_m.plus(b.x_m.minus(a.x_m).times(fraction)),
                        y_m: a.y_m.plus(b.y_m.minus(a.y_m).times(fraction)),
                    };
                    return if point.valid() {
                        Some(ReferenceLocation { point, heading_rad })
                    } else {
                        None
                    };
                }
            }
            if last {
                return self.last_location;
            }
            self.arc_start_m = end_m;
            self.segment = self.segment + 1;
        }
    }
}

/// A single projection. Several projections onto the same stretch share one
/// [`PreparedReference`].
pub fn project_reference<F: Fn(Elementary) -> Binary64>(
    path: &[Point2],
    progress: usize,
    point: Point2,
    max_advance_m: Binary64,
    host: &F,
) -> (r: Option<ReferenceProjection>)
    requires
        elementary::total(*host),
    ensures
        forall|m: spec_fn(Elementary) -> Binary64| #[trigger]
            elementary::models(*host, m) ==> r == match prepared(
                m,
                path@,
                progress as int,
                max_advance_m,
            ) {
                None => None,
                Some(stretch) => stretch.projected(m, point),
            },
{
    match PreparedReference::new(path, progress, max_advance_m, host) {
        None => None,
        Some(reference) => reference.project(point, host),
    }
}

proof fn lemma_best_is_nearest(
    s: Stretch,
    m: spec_fn(Elementary) -> Binary64,
    point: Point2,
    n: nat,
    i: int,
)
    requires
        0 <= i < n,
        !s.degenerate(m, i),
        forall|j: int|
            0 <= j < n && !s.degenerate(m, j) ==> #[trigger] s.representable(m, point, j),
    ensures
        s.best(m, point, n) is Some,
        s.best(m, point, n)->0.distance_m.finite(),
        s.best(m, point, n)->0.arc_m.finite(),
        !closer(s.candidate(m, point, i), s.best(m, point, n)->0),
    decreases n,
{
    if !s.degenerate(m, n - 1) {
        assert(s.representable(m, point, n - 1));
    }
    if i < n - 1 {
        lemma_best_is_nearest(s, m, point, (n - 1) as nat, i);
    } else {
        lemma_best_is_finite(s, m, point, (n - 1) as nat);
    }
}

proof fn lemma_best_is_finite(
    s: Stretch,
    m: spec_fn(Elementary) -> Binary64,
    point: Point2,
    n: nat,
)
    requires
        forall|j: int|
            0 <= j < n && !s.degenerate(m, j) ==> #[trigger] s.representable(m, point, j),
    ensures
        s.best(m, point, n) matches Some(p) ==> p.distance_m.finite() && p.arc_m.finite(),
    decreases n,
{
    if n > 0 {
        if !s.degenerate(m, n - 1) {
            assert(s.representable(m, point, n - 1));
        }
        lemma_best_is_finite(s, m, point, (n - 1) as nat);
    }
}

/// A projection is at most as far as the candidate of any segment of the
/// stretch, and of equally near ones it has the smallest arc length, so that a
/// later branch at a crossing does not win.
pub proof fn law_projection_is_nearest(
    s: Stretch,
    m: spec_fn(Elementary) -> Binary64,
    point: Point2,
    i: int,
)
    requires
        s.points.len() >= 2,
        s.projected(m, point) is Some,
        0 <= i < s.points.len() - 1,
        !s.degenerate(m, i),
    ensures
        ({
            let p = s.projected(m, point)->0;
            let c = s.candidate(m, point, i);
            p.distance_m.lt(c.distance_m) || (p.distance_m.same(c.distance_m) && p.arc_m.le(
                c.arc_m,
            ))
        }),
{
    let n = (s.points.len() - 1) as nat;
    lemma_best_is_nearest(s, m, point, n, i);
    assert(s.representable(m, point, i));
}

/// The scan looks at no segment before the one that leads to the vertex of
/// progress, and the stretch is a part of the path.
pub proof fn law_stretch_is_part_of_the_path(
    m: spec_fn(Elementary) -> Binary64,
    path: Seq<Point2>,
    progress: int,
    max_advance_m: Binary64,
)
    requires
        0 <= progress,
        prepared(m, path, progress, max_advance_m) is Some,
    ensures
        ({
            let s = prepared(m, path, progress, max_advance_m)->0;
            let start = start_of(progress);
            &&& 2 <= s.points.len() <= s.tail.len()
            &&& s.tail == path.subrange(start, path.len() as int)
            &&& s.points == path.subrange(start, start + s.points.len())
        }),
{
    lemma_scanned_range(
        m,
        path,
        progress,
        start_of(progress),
        max_advance_m,
        Binary64::of(ZERO),
        None,
        start_of(progress),
    );
}

proof fn lemma_scanned_range(
    m: spec_fn(Elementary) -> Binary64,
    path: Seq<Point2>,
    progress: int,
    index: int,
    remaining: Binary64,
    arc: Binary64,
    last: Option<(int, Binary64)>,
    start: int,
)
    requires
        start <= index,
        last matches Some((l, _)) ==> start <= l < index && l + 1 < path.len(),
    ensures
        scanned(m, path, progress, index, remaining, arc, last) matches Scanned::Last(
            Some((l, _)),
        ) ==> start <= l && l + 1 < path.len(),
    decreases path.len() - index,
{
    if index + 1 < path.len() {
        let length = length_at(m, path, index);
        let forward = index >= progress;
        let admitted = if forward {
            length.min(remaining)
        } else {
            length
        };
        lemma_scanned_range(m, path, progress, index + 1, remaining, arc, last, start);
        lemma_scanned_range(
            m,
            path,
            progress,
            index + 1,
            if forward {
                remaining.minus(admitted)
            } else {
                remaining
            },
            arc.plus(length),
            Some((index, admitted)),
            start,
        );
    }
}

/// A cursor never goes back: its segment and its latest query only increase,
/// and a query before the latest one is refused without any change.
pub proof fn law_cursor_goes_forward(
    c: Cursor,
    m: spec_fn(Elementary) -> Binary64,
    arc_m: Binary64,
)
    requires
        c.sound(),
        c.last_query_m.finite(),
    ensures
        c.located(m, arc_m).0.segment >= c.segment,
        c.located(m, arc_m).0.sound(),
        c.last_query_m.le(c.located(m, arc_m).0.last_query_m),
        arc_m.lt(c.last_query_m) ==> c.located(m, arc_m) == (c, None::<ReferenceLocation>),
{
    lemma_sought_forward(Cursor { last_query_m: arc_m, ..c }, m, arc_m);
}

proof fn lemma_sought_forward(c: Cursor, m: spec_fn(Elementary) -> Binary64, arc_m: Binary64)
    requires
        c.sound(),
    ensures
        c.sought(m, arc_m).0.segment >= c.segment,
        c.sought(m, arc_m).0.sound(),
        c.sought(m, arc_m).0.last_query_m == c.last_query_m,
    decreases c.points.len() - c.segment,
{
    if c.segment < c.points.len() - 2 {
        let length = length_at(m, c.points, c.segment);
        let next = Cursor { arc_start_m: c.arc_start_m.plus(length), segment: c.segment + 1, ..c };
        lemma_sought_forward(next, m, arc_m);
        lemma_sought_forward(
            Cursor { last_location: Some(c.end_of_segment(m)), ..next },
            m,
            arc_m,
        );
    }
}

/// The candidate of a segment lies on its admitted part: at its start for a
/// point behind it, at the end of that part for a point beyond, and otherwise
/// as far along it as the point is. Its arc length is that before the segment
/// with the way along it, its heading is that from the start of the segment to
/// its end, and its distance is that from the point to it.
pub proof fn law_candidates_lie_on_their_segment(
    s: Stretch,
    m: spec_fn(Elementary) -> Binary64,
    point: Point2,
    i: int,
)
    requires
        Binary64::of(ZERO).le(s.admitted(m, i)),
        s.points[i].finite(),
        s.points[i + 1].finite(),
    ensures
        ({
            let (a, b) = (s.points[i], s.points[i + 1]);
            let (dx, dy) = (b.x_m.minus(a.x_m), b.y_m.minus(a.y_m));
            let length = m(Elementary::Length { x: dx, y: dy });
            let (ux, uy) = (dx.over(length), dy.over(length));
            let along = point.x_m.minus(a.x_m).times(ux).plus(point.y_m.minus(a.y_m).times(uy));
            let c = s.candidate(m, point, i);
            let zero = Binary64::of(ZERO);
            let end = s.admitted(m, i);
            &&& c.heading_rad == m(Elementary::Bearing { y: dy, x: dx })
            &&& c.distance_m == m(
                Elementary::Length {
                    x: point.x_m.minus(c.point.x_m),
                    y: point.y_m.minus(c.point.y_m),
                },
            )
            &&& along.le(zero) && ux.finite() && uy.finite() ==> c.point.x_m.same(a.x_m)
                && c.point.y_m.same(a.y_m)
            &&& zero.le(along) && along.le(end) ==> c.arc_m == s.arc_before(m, i as nat).plus(along)
                && c.point.x_m == a.x_m.plus(ux.times(along)) && c.point.y_m == a.y_m.plus(
                uy.times(along),
            )
            &&& end.lt(along) ==> c.arc_m == s.arc_before(m, i as nat).plus(end) && c.point.x_m
                == a.x_m.plus(ux.times(end)) && c.point.y_m == a.y_m.plus(uy.times(end))
        }),
{
    let (a, b) = (s.points[i], s.points[i + 1]);
    let (dx, dy) = (b.x_m.minus(a.x_m), b.y_m.minus(a.y_m));
    let length = m(Elementary::Length { x: dx, y: dy });
    let (ux, uy) = (dx.over(length), dy.over(length));
    let along = s.along(m, point, i);
    let travel = along.clamp(Binary64::of(ZERO), s.admitted(m, i));
    if along.le(Binary64::of(ZERO)) && ux.finite() && uy.finite() {
        assert(travel.zero());
        signs::law_zero_makes_zero(ux, travel);
        signs::law_zero_makes_zero(uy, travel);
        signs::law_zero_adds_nothing(a.x_m, ux.times(travel));
        signs::law_zero_adds_nothing(a.y_m, uy.times(travel));
    }
}

/// A projection is the candidate of one of the segments that have a length: its
/// heading is that of the segment, and its distance that from the point.
pub proof fn law_projections_are_candidates(
    s: Stretch,
    m: spec_fn(Elementary) -> Binary64,
    point: Point2,
)
    requires
        s.points.len() >= 2,
        s.projected(m, point) is Some,
    ensures
        exists|i: int|
            {
                &&& 0 <= i < s.points.len() - 1
                &&& !s.span(m, i).same(Binary64::of(ZERO))
                &&& s.projected(m, point)->0 == #[trigger] s.candidate(m, point, i)
            },
{
    lemma_best_is_a_candidate(s, m, point, (s.points.len() - 1) as nat);
}

proof fn lemma_best_is_a_candidate(
    s: Stretch,
    m: spec_fn(Elementary) -> Binary64,
    point: Point2,
    n: nat,
)
    ensures
        s.best(m, point, n) matches Some(p) ==> exists|i: int|
            {
                &&& 0 <= i < n
                &&& !s.span(m, i).same(Binary64::of(ZERO))
                &&& p == #[trigger] s.candidate(m, point, i)
            },
    decreases n,
{
    if n > 0 {
        lemma_best_is_a_candidate(s, m, point, (n - 1) as nat);
        let before = s.best(m, point, (n - 1) as nat);
        if s.best(m, point, n) is Some && s.best(m, point, n) == before {
            let i = choose|i: int|
                {
                    &&& 0 <= i < n - 1
                    &&& !s.span(m, i).same(Binary64::of(ZERO))
                    &&& before->0 == #[trigger] s.candidate(m, point, i)
                };
            assert(s.best(m, point, n)->0 == s.candidate(m, point, i));
        }
    }
}

/// The location at an arc length is on the segment that holds it, the part of
/// the way along that the rest of the arc length is of the segment's length,
/// with the heading from its start to its end. At the start of the segment it
/// is its first point.
pub proof fn law_locations_lie_along_the_segment(
    c: Cursor,
    m: spec_fn(Elementary) -> Binary64,
    arc_m: Binary64,
    length: Binary64,
)
    requires
        c.within_segment(m, arc_m, length) is Some,
        c.points[c.segment].finite(),
        Binary64::of(ZERO).lt(length),
        length.finite(),
        c.points[c.segment + 1].x_m.minus(c.points[c.segment].x_m).finite(),
        c.points[c.segment + 1].y_m.minus(c.points[c.segment].y_m).finite(),
    ensures
        ({
            let (a, b) = (c.points[c.segment], c.points[c.segment + 1]);
            let (dx, dy) = (b.x_m.minus(a.x_m), b.y_m.minus(a.y_m));
            let here = c.within_segment(m, arc_m, length)->0;
            let rest = arc_m.minus(c.arc_start_m);
            &&& here.heading_rad == m(Elementary::Bearing { y: dy, x: dx })
            &&& Binary64::of(ZERO).le(rest) && rest.le(length) ==> here.point.x_m == a.x_m.plus(
                dx.times(rest.over(length)),
            ) && here.point.y_m == a.y_m.plus(dy.times(rest.over(length)))
            &&& rest.le(Binary64::of(ZERO)) ==> here.point.x_m.same(a.x_m) && here.point.y_m.same(
                a.y_m,
            )
            &&& length.le(rest) ==> here.point.x_m == a.x_m.plus(dx.times(length.over(length)))
                && here.point.y_m == a.y_m.plus(dy.times(length.over(length)))
        }),
{
    let (a, b) = (c.points[c.segment], c.points[c.segment + 1]);
    let (dx, dy) = (b.x_m.minus(a.x_m), b.y_m.minus(a.y_m));
    let rest = arc_m.minus(c.arc_start_m);
    let way = rest.clamp(Binary64::of(ZERO), length);
    if way.zero() {
        signs::law_zero_parts_are_zero(way, length);
        signs::law_zero_makes_zero(dx, way.over(length));
        signs::law_zero_makes_zero(dy, way.over(length));
        signs::law_zero_adds_nothing(a.x_m, dx.times(way.over(length)));
        signs::law_zero_adds_nothing(a.y_m, dy.times(way.over(length)));
    }
}

} // verus!
