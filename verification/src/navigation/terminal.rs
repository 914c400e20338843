//! The work ledger of the terminal solvers, and the numbers that they pass on.
//!
//! A seed is a numerical hint, never permission to reuse a path: every solve
//! checks its own samples.
use crate::autonomy::{Point2, Pose2};
use crate::binary64::values::{FORTIETH, HALF_PI, MILLIONTH, QUARTER, TEN_THOUSANDTH, THREE, HALF};
use crate::binary64::Binary64;
use crate::navigation::primitive_envelope::ErrorBound;
use crate::navigation::NavigationConfig;
use vstd::prelude::*;

pub mod bounds;
pub mod correction;
pub mod laws;
pub mod solvers;

verus! {

/// The charged work of one navigation call, shared by all its solvers.
#[derive(Clone, Copy, Debug)]
pub struct TerminalWorkDiagnostics {
    /// Solver calls within the domain; others are counted apart.
    pub solver_attempts: usize,
    pub iterations: usize,
    /// Samples reserved before each primitive, which may execute fewer.
    pub primitive_samples: usize,
    pub budget_exhausted: bool,
    pub solver_limit: usize,
    pub iteration_limit: usize,
    pub sample_limit: usize,
    pub continued_seed_attempts: usize,
    pub continued_seed_accepted: usize,
    /// Solvers that used all their correction iterations in vain.
    pub solver_iteration_exhaustions: usize,
    pub domain_rejections: usize,
    pub primitive_grid_rejections: usize,
    /// Calls of the arrival region fallback.
    pub arrival_region_attempts: usize,
    pub arrival_region_accepted: usize,
    /// Cold requests deferred to keep the allowance for a continuation.
    pub cold_budget_deferrals: usize,
    pub recovery_reserved_solvers: usize,
    pub recovery_reserved_iterations: usize,
    pub recovery_reserved_samples: usize,
    /// One where earlier work left less than the worst case of a continuation.
    pub recovery_reservation_shortfalls: usize,
    /// Host time inside the solvers, where it is measured.
    pub solver_elapsed_ns: Option<u64>,
}

impl TerminalWorkDiagnostics {
    pub open spec fn none() -> Self {
        TerminalWorkDiagnostics {
            solver_attempts: 0,
            iterations: 0,
            primitive_samples: 0,
            budget_exhausted: false,
            solver_limit: 0,
            iteration_limit: 0,
            sample_limit: 0,
            continued_seed_attempts: 0,
            continued_seed_accepted: 0,
            solver_iteration_exhaustions: 0,
            domain_rejections: 0,
            primitive_grid_rejections: 0,
            arrival_region_attempts: 0,
            arrival_region_accepted: 0,
            cold_budget_deferrals: 0,
            recovery_reserved_solvers: 0,
            recovery_reserved_iterations: 0,
            recovery_reserved_samples: 0,
            recovery_reservation_shortfalls: 0,
            solver_elapsed_ns: None,
        }
    }

    /// The work of a fresh ledger.
    pub open spec fn fresh() -> Self {
        TerminalWorkDiagnostics {
            solver_limit: 256,
            iteration_limit: 1024,
            sample_limit: 65_536,
            ..Self::none()
        }
    }

    /// Whether nothing is charged beyond its limit.
    pub open spec fn within_limits(self) -> bool {
        &&& self.solver_attempts <= self.solver_limit
        &&& self.iterations <= self.iteration_limit
        &&& self.primitive_samples <= self.sample_limit
    }

    /// Whether no count has grown by more than so much.
    pub open spec fn grown(self, before: Self, k: int) -> bool {
        &&& self.continued_seed_attempts <= before.continued_seed_attempts + k
        &&& self.continued_seed_accepted <= before.continued_seed_accepted + k
        &&& self.solver_iteration_exhaustions <= before.solver_iteration_exhaustions + k
        &&& self.domain_rejections <= before.domain_rejections + k
        &&& self.primitive_grid_rejections <= before.primitive_grid_rejections + k
        &&& self.arrival_region_attempts <= before.arrival_region_attempts + k
        &&& self.arrival_region_accepted <= before.arrival_region_accepted + k
        &&& self.cold_budget_deferrals <= before.cold_budget_deferrals + k
    }

    /// Whether every count can grow by so much.
    pub open spec fn room(self, n: int) -> bool {
        &&& self.continued_seed_attempts + n <= usize::MAX
        &&& self.continued_seed_accepted + n <= usize::MAX
        &&& self.solver_iteration_exhaustions + n <= usize::MAX
        &&& self.domain_rejections + n <= usize::MAX
        &&& self.primitive_grid_rejections + n <= usize::MAX
        &&& self.arrival_region_attempts + n <= usize::MAX
        &&& self.arrival_region_accepted + n <= usize::MAX
        &&& self.cold_budget_deferrals + n <= usize::MAX
    }
}

impl Default for TerminalWorkDiagnostics {
    fn default() -> (r: Self)
        ensures
            r == Self::none(),
    {
        TerminalWorkDiagnostics {
            solver_attempts: 0,
            iterations: 0,
            primitive_samples: 0,
            budget_exhausted: false,
            solver_limit: 0,
            iteration_limit: 0,
            sample_limit: 0,
            continued_seed_attempts: 0,
            continued_seed_accepted: 0,
            solver_iteration_exhaustions: 0,
            domain_rejections: 0,
            primitive_grid_rejections: 0,
            arrival_region_attempts: 0,
            arrival_region_accepted: 0,
            cold_budget_deferrals: 0,
            recovery_reserved_solvers: 0,
            recovery_reserved_iterations: 0,
            recovery_reserved_samples: 0,
            recovery_reservation_shortfalls: 0,
            solver_elapsed_ns: None,
        }
    }
}

#[derive(Clone, Copy, Debug)]
pub struct WorkAllowance {
    pub solvers: usize,
    pub iterations: usize,
    pub samples: usize,
}

/// What endpoint a solver may accept.
#[derive(Clone, Copy, Debug, PartialEq, Eq, Structural)]
pub enum EndpointPolicy {
    ExactCenter,
    ArrivalRegion,
}

impl EndpointPolicy {
    pub open spec fn spec_position_tolerance(self, config: NavigationConfig) -> Binary64 {
        match self {
            EndpointPolicy::ExactCenter => config.goal_tolerance_m.times(
                Binary64::of(QUARTER),
            ).min(Binary64::of(TEN_THOUSANDTH)),
            EndpointPolicy::ArrivalRegion => config.goal_tolerance_m.times(Binary64::of(HALF)),
        }
    }

    #[verifier::when_used_as_spec(spec_position_tolerance)]
    pub fn position_tolerance(self, config: NavigationConfig) -> (r: Binary64)
        ensures
            r == self.spec_position_tolerance(config),
    {
        match self {
            EndpointPolicy::ExactCenter => config.goal_tolerance_m.times(
                Binary64::of(QUARTER),
            ).min(Binary64::of(TEN_THOUSANDTH)),
            EndpointPolicy::ArrivalRegion => config.goal_tolerance_m.times(Binary64::of(HALF)),
        }
    }
}

/// The state of the ledger: the work done, the ceiling for cold requests while
/// a continuation is held in reserve, and whether one was deferred.
#[derive(Clone, Copy, Debug)]
pub struct Ledger {
    pub work: TerminalWorkDiagnostics,
    pub cold_ceiling: Option<WorkAllowance>,
    pub cold_deferred: bool,
    pub timing_enabled: bool,
}

pub open spec fn least(a: usize, b: int) -> usize {
    if a <= b {
        a
    } else {
        b as usize
    }
}

/// The arc length between two samples of a primitive.
pub open spec fn spec_sample_arc_bound(resolution: Binary64) -> Binary64 {
    resolution.over(Binary64::of(THREE)).min(Binary64::of(FORTIETH))
}

#[verifier::when_used_as_spec(spec_sample_arc_bound)]
pub fn sample_arc_bound(resolution: Binary64) -> (r: Binary64)
    ensures
        r == spec_sample_arc_bound(resolution),
{
    resolution.over(Binary64::of(THREE)).min(Binary64::of(FORTIETH))
}

/// The samples of one arc over a distance, at its longest.
pub open spec fn segment_samples(max_distance: Binary64, resolution: Binary64) -> u64 {
    max_distance.times(Binary64::of(HALF_PI)).over(
        sample_arc_bound(resolution),
    ).ceil().truncated(usize::MAX as u64)
}

/// The worst case of samples in a continuation over a distance: eight
/// iterations of four samplings of two segments.
pub open spec fn continuation_samples(max_distance: Binary64, resolution: Binary64) -> usize {
    let segment = segment_samples(max_distance, resolution);
    if (segment + 2) * 4 * 8 > usize::MAX {
        usize::MAX
    } else {
        ((segment + 2) * 4 * 8) as usize
    }
}

impl Ledger {
    pub open spec fn fresh(timing_enabled: bool) -> Self {
        Ledger {
            work: TerminalWorkDiagnostics::fresh(),
            cold_ceiling: None,
            cold_deferred: false,
            timing_enabled,
        }
    }

    pub open spec fn after_reset(self) -> Self {
        let fresh = Self::fresh(self.timing_enabled);
        Ledger {
            work: TerminalWorkDiagnostics {
                solver_elapsed_ns: if self.timing_enabled {
                    Some(0)
                } else {
                    None
                },
                ..fresh.work
            },
            ..fresh
        }
    }

    /// The ledger with one continuation held in reserve. Where less is left,
    /// only what is left is reserved.
    pub open spec fn reserving(self, max_distance: Binary64, resolution: Binary64) -> Self {
        let w = self.work;
        let samples = continuation_samples(max_distance, resolution);
        let solvers_left = w.solver_limit - w.solver_attempts;
        let iterations_left = w.iteration_limit - w.iterations;
        let samples_left = w.sample_limit - w.primitive_samples;
        let reserved = WorkAllowance {
            solvers: least(1, solvers_left),
            iterations: least(8, iterations_left),
            samples: least(samples, samples_left),
        };
        Ledger {
            work: TerminalWorkDiagnostics {
                recovery_reserved_solvers: reserved.solvers,
                recovery_reserved_iterations: reserved.iterations,
                recovery_reserved_samples: reserved.samples,
                recovery_reservation_shortfalls: if solvers_left < 1 || iterations_left < 8
                    || samples_left < samples {
                    1
                } else {
                    0
                },
                ..w
            },
            cold_ceiling: Some(
                WorkAllowance {
                    solvers: (w.solver_limit - reserved.solvers) as usize,
                    iterations: (w.iteration_limit - reserved.iterations) as usize,
                    samples: (w.sample_limit - reserved.samples) as usize,
                },
            ),
            ..self
        }
    }

    /// Whether work is more than an allowance.
    pub open spec fn exceeds(s: int, i: int, p: int, a: WorkAllowance) -> bool {
        s > a.solvers || i > a.iterations || p > a.samples
    }

    /// The ledger charged with work, and whether the work may be done. Work
    /// beyond the ceiling of a reserve is deferred, work beyond the limits
    /// exhausts the ledger, and after either nothing is granted.
    pub open spec fn charged(self, solvers: usize, iterations: usize, samples: usize) -> (
        Self,
        bool,
    ) {
        let s = self.work.solver_attempts + solvers;
        let i = self.work.iterations + iterations;
        let p = self.work.primitive_samples + samples;
        let limits = WorkAllowance {
            solvers: self.work.solver_limit,
            iterations: self.work.iteration_limit,
            samples: self.work.sample_limit,
        };
        if self.work.budget_exhausted || self.cold_deferred {
            (self, false)
        } else if self.cold_ceiling is Some && Self::exceeds(s, i, p, self.cold_ceiling->0) {
            (
                Ledger {
                    cold_deferred: true,
                    work: TerminalWorkDiagnostics {
                        cold_budget_deferrals: (self.work.cold_budget_deferrals + 1) as usize,
                        ..self.work
                    },
                    ..self
                },
                false,
            )
        } else if Self::exceeds(s, i, p, limits) {
            (
                Ledger {
                    work: TerminalWorkDiagnostics { budget_exhausted: true, ..self.work },
                    ..self
                },
                false,
            )
        } else {
            (
                Ledger {
                    work: TerminalWorkDiagnostics {
                        solver_attempts: s as usize,
                        iterations: i as usize,
                        primitive_samples: p as usize,
                        ..self.work
                    },
                    ..self
                },
                true,
            )
        }
    }

    pub open spec fn timed(self, elapsed_ns: u64) -> Self {
        let before = if self.work.solver_elapsed_ns is Some {
            self.work.solver_elapsed_ns->0
        } else {
            0
        };
        Ledger {
            work: TerminalWorkDiagnostics {
                solver_elapsed_ns: Some(
                    if before + elapsed_ns > u64::MAX {
                        u64::MAX
                    } else {
                        (before + elapsed_ns) as u64
                    },
                ),
                ..self.work
            },
            ..self
        }
    }

    pub open spec fn sound(self) -> bool {
        self.work.within_limits()
    }

    /// The ledger with one more event of a kind counted.
    pub open spec fn counting(self, event: Event) -> Self {
        let w = self.work;
        Ledger {
            work: match event {
                Event::DomainRejection => TerminalWorkDiagnostics {
                    domain_rejections: (w.domain_rejections + 1) as usize,
                    ..w
                },
                Event::GridRejection => TerminalWorkDiagnostics {
                    primitive_grid_rejections: (w.primitive_grid_rejections + 1) as usize,
                    ..w
                },
                Event::IterationExhaustion => TerminalWorkDiagnostics {
                    solver_iteration_exhaustions: (w.solver_iteration_exhaustions + 1) as usize,
                    ..w
                },
                Event::SeedAttempt => TerminalWorkDiagnostics {
                    continued_seed_attempts: (w.continued_seed_attempts + 1) as usize,
                    ..w
                },
                Event::SeedAccepted => TerminalWorkDiagnostics {
                    continued_seed_accepted: (w.continued_seed_accepted + 1) as usize,
                    ..w
                },
                Event::RegionAttempt => TerminalWorkDiagnostics {
                    arrival_region_attempts: (w.arrival_region_attempts + 1) as usize,
                    ..w
                },
                Event::RegionAccepted => TerminalWorkDiagnostics {
                    arrival_region_accepted: (w.arrival_region_accepted + 1) as usize,
                    ..w
                },
            },
            ..self
        }
    }
}

/// What the ledger counts besides charged work.
#[derive(Clone, Copy, Debug, PartialEq, Eq, Structural)]
pub enum Event {
    DomainRejection,
    GridRejection,
    IterationExhaustion,
    SeedAttempt,
    SeedAccepted,
    RegionAttempt,
    RegionAccepted,
}

/// The ledger that all solvers of one navigation call charge.
#[derive(Debug)]
pub struct TerminalBudget {
    ledger: Ledger,
}

impl View for TerminalBudget {
    type V = Ledger;

    closed spec fn view(&self) -> Ledger {
        self.ledger
    }
}

impl Default for TerminalBudget {
    fn default() -> (r: Self)
        ensures
            r@ == Ledger::fresh(false),
            r@.sound(),
            r@.work.room(1000),
    {
        TerminalBudget {
            ledger: Ledger {
                work: fresh_work(),
                cold_ceiling: None,
                cold_deferred: false,
                timing_enabled: false,
            },
        }
    }
}

fn fresh_work() -> (r: TerminalWorkDiagnostics)
    ensures
        r == TerminalWorkDiagnostics::fresh(),
{
    let mut work: TerminalWorkDiagnostics = TerminalWorkDiagnostics::default();
    work.solver_limit = 256;
    work.iteration_limit = 1024;
    work.sample_limit = 65_536;
    work
}

fn least_of(a: usize, b: usize) -> (r: usize)
    ensures
        r == least(a, b as int),
{
    if a <= b {
        a
    } else {
        b
    }
}

impl TerminalBudget {
    pub fn reset(&mut self)
        ensures
            final(self)@ == old(self)@.after_reset(),
            final(self)@.sound(),
    {
        let timing_enabled: bool = self.ledger.timing_enabled;
        let mut work: TerminalWorkDiagnostics = fresh_work();
        work.solver_elapsed_ns = if timing_enabled {
            Some(0)
        } else {
            None
        };
        self.ledger = Ledger { work, cold_ceiling: None, cold_deferred: false, timing_enabled };
    }

    pub fn set_timing_enabled(&mut self, enabled: bool)
        ensures
            final(self)@ == (Ledger { timing_enabled: enabled, ..old(self)@ }),
    {
        self.ledger.timing_enabled = enabled;
    }

    pub fn snapshot(&self) -> (r: TerminalWorkDiagnostics)
        ensures
            r == self@.work,
    {
        self.ledger.work
    }

    /// Adds time that was measured inside a solver.
    pub fn record_elapsed(&mut self, elapsed_ns: u64)
        ensures
            final(self)@ == old(self)@.timed(elapsed_ns),
    {
        let before: u64 = match self.ledger.work.solver_elapsed_ns {
            None => 0,
            Some(before) => before,
        };
        self.ledger.work.solver_elapsed_ns = Some(before.saturating_add(elapsed_ns));
    }

    /// Keeps the worst case of one continuation out of the cold round. Work
    /// done before stays charged.
    pub fn reserve_continuation(&mut self, max_distance: Binary64, resolution: Binary64)
        requires
            old(self)@.sound(),
        ensures
            final(self)@ == old(self)@.reserving(max_distance, resolution),
            final(self)@.sound(),
    {
        let segment: usize = max_distance.times(Binary64::of(HALF_PI)).over(
            sample_arc_bound(resolution),
        ).ceil().to_size();
        let samples: usize = if segment > usize::MAX / 32 - 2 {
            usize::MAX
        } else {
            (segment + 2) * 4 * 8
        };
        assert(samples == continuation_samples(max_distance, resolution));
        let work: TerminalWorkDiagnostics = self.ledger.work;
        let solvers_left: usize = work.solver_limit - work.solver_attempts;
        let iterations_left: usize = work.iteration_limit - work.iterations;
        let samples_left: usize = work.sample_limit - work.primitive_samples;
        let solvers: usize = least_of(1, solvers_left);
        let iterations: usize = least_of(8, iterations_left);
        let held: usize = least_of(samples, samples_left);
        self.ledger.work.recovery_reserved_solvers = solvers;
        self.ledger.work.recovery_reserved_iterations = iterations;
        self.ledger.work.recovery_reserved_samples = held;
        self.ledger.work.recovery_reservation_shortfalls = if solvers_left < 1 || iterations_left
            < 8 || samples_left < samples {
            1
        } else {
            0
        };
        self.ledger.cold_ceiling = Some(
            WorkAllowance {
                solvers: work.solver_limit - solvers,
                iterations: work.iteration_limit - iterations,
                samples: work.sample_limit - held,
            },
        );
    }

    pub fn begin_cold_candidate(&mut self)
        ensures
            final(self)@ == (Ledger { cold_deferred: false, ..old(self)@ }),
    {
        self.ledger.cold_deferred = false;
    }

    pub fn cold_deferred(&self) -> (r: bool)
        ensures
            r == self@.cold_deferred,
    {
        self.ledger.cold_deferred
    }

    pub fn release_continuation(&mut self)
        ensures
            final(self)@ == (Ledger { cold_ceiling: None, cold_deferred: false, ..old(self)@ }),
    {
        self.ledger.cold_ceiling = None;
        self.ledger.cold_deferred = false;
    }

    /// Counts an event.
    pub fn count(&mut self, event: Event)
        requires
            old(self)@.work.room(1),
        ensures
            final(self)@ == old(self)@.counting(event),
    {
        let mut work: TerminalWorkDiagnostics = self.ledger.work;
        match event {
            Event::DomainRejection => {
                work.domain_rejections = work.domain_rejections + 1;
            },
            Event::GridRejection => {
                work.primitive_grid_rejections = work.primitive_grid_rejections + 1;
            },
            Event::IterationExhaustion => {
                work.solver_iteration_exhaustions = work.solver_iteration_exhaustions + 1;
            },
            Event::SeedAttempt => {
                work.continued_seed_attempts = work.continued_seed_attempts + 1;
            },
            Event::SeedAccepted => {
                work.continued_seed_accepted = work.continued_seed_accepted + 1;
            },
            Event::RegionAttempt => {
                work.arrival_region_attempts = work.arrival_region_attempts + 1;
            },
            Event::RegionAccepted => {
                work.arrival_region_accepted = work.arrival_region_accepted + 1;
            },
        }
        self.ledger.work = work;
    }

    /// Charges work before it is done, and says whether it may be done.
    pub fn charge(&mut self, solvers: usize, iterations: usize, samples: usize) -> (r: bool)
        requires
            old(self)@.sound(),
            old(self)@.work.cold_budget_deferrals < usize::MAX,
        ensures
            (final(self)@, r) == old(self)@.charged(solvers, iterations, samples),
            final(self)@.sound(),
    {
        let work: TerminalWorkDiagnostics = self.ledger.work;
        if work.budget_exhausted || self.ledger.cold_deferred {
            return false;
        }
        let limits: WorkAllowance = WorkAllowance {
            solvers: work.solver_limit,
            iterations: work.iteration_limit,
            samples: work.sample_limit,
        };
        if let Some(ceiling) = self.ledger.cold_ceiling {
            if exceeds(work, solvers, iterations, samples, ceiling) {
                self.ledger.cold_deferred = true;
                self.ledger.work.cold_budget_deferrals = work.cold_budget_deferrals + 1;
                return false;
            }
        }
        if exceeds(work, solvers, iterations, samples, limits) {
            self.ledger.work.budget_exhausted = true;
            return false;
        }
        self.ledger.work.solver_attempts = work.solver_attempts + solvers;
        self.ledger.work.iterations = work.iterations + iterations;
        self.ledger.work.primitive_samples = work.primitive_samples + samples;
        true
    }
}

/// Whether more work would exceed an allowance.
fn exceeds(
    work: TerminalWorkDiagnostics,
    solvers: usize,
    iterations: usize,
    samples: usize,
    a: WorkAllowance,
) -> (r: bool)
    ensures
        r == Ledger::exceeds(
            work.solver_attempts + solvers,
            work.iterations + iterations,
            work.primitive_samples + samples,
            a,
        ),
{
    work.solver_attempts > a.solvers || solvers > a.solvers - work.solver_attempts
        || work.iterations > a.iterations || iterations > a.iterations - work.iterations
        || work.primitive_samples > a.samples || samples > a.samples - work.primitive_samples
}

/// The two curvatures and the length of a two-part approach.
#[derive(Clone, Copy, Debug)]
pub struct Variables {
    pub first: Binary64,
    pub second: Binary64,
    pub length: Binary64,
}

#[derive(Clone, Copy, Debug)]
pub struct TwoArcSeed {
    pub variables: Variables,
    pub first_fraction: Binary64,
}

impl TwoArcSeed {
    pub fn first_curvature(self) -> (r: Binary64)
        ensures
            r == self.variables.first,
    {
        self.variables.first
    }

    /// The seed once a part of the first segment has been travelled.
    pub open spec fn spec_after_travel(self, distance: Binary64) -> Option<Self> {
        let v = self.variables;
        let first = v.length.times(self.first_fraction).minus(distance);
        let remaining = v.length.minus(distance);
        if first.le(Binary64::of(MILLIONTH)) || remaining.le(Binary64::of(MILLIONTH)) {
            None
        } else {
            Some(
                TwoArcSeed {
                    variables: Variables { length: remaining, ..v },
                    first_fraction: first.over(remaining),
                },
            )
        }
    }

    #[verifier::when_used_as_spec(spec_after_travel)]
    pub fn after_travel(self, distance: Binary64) -> (r: Option<Self>)
        ensures
            r == self.spec_after_travel(distance),
    {
        let first: Binary64 = self.variables.length.times(self.first_fraction).minus(distance);
        let remaining: Binary64 = self.variables.length.minus(distance);
        if first.at_most(Binary64::of(MILLIONTH)) || remaining.at_most(Binary64::of(MILLIONTH)) {
            return None;
        }
        Some(
            TwoArcSeed {
                variables: Variables {
                    first: self.variables.first,
                    second: self.variables.second,
                    length: remaining,
                },
                first_fraction: first.over(remaining),
            },
        )
    }
}

/// A two-part approach that was checked sample by sample.
#[derive(Debug)]
pub struct TwoArcConnection {
    /// Whether the approach was solved from the seed supplied.
    pub used_seed: bool,
    pub points: Vec<Point2>,
    pub endpoint: Pose2,
    pub end_curvature: Binary64,
    pub seed: TwoArcSeed,
    pub error: ErrorBound,
}

/// A connection with its points as a sequence.
pub struct Connection {
    pub used_seed: bool,
    pub points: Seq<Point2>,
    pub endpoint: Pose2,
    pub end_curvature: Binary64,
    pub seed: TwoArcSeed,
    pub error: ErrorBound,
}

impl View for TwoArcConnection {
    type V = Connection;

    open spec fn view(&self) -> Connection {
        Connection {
            used_seed: self.used_seed,
            points: self.points@,
            endpoint: self.endpoint,
            end_curvature: self.end_curvature,
            seed: self.seed,
            error: self.error,
        }
    }
}

impl TwoArcConnection {
    pub fn into_path(self) -> (r: (Vec<Point2>, Pose2, Binary64))
        ensures
            r.0@ == self@.points,
            r.1 == self@.endpoint,
            r.2 == self@.end_curvature,
    {
        (self.points, self.endpoint, self.end_curvature)
    }
}

/// Nothing is ever charged beyond the limits, nor beyond the ceiling of a
/// reserve while one is held, and what is charged is never taken back.
pub proof fn law_charges_respect_the_limits(
    before: Ledger,
    solvers: usize,
    iterations: usize,
    samples: usize,
)
    requires
        before.sound(),
    ensures
        ({
            let (after, granted) = before.charged(solvers, iterations, samples);
            &&& after.sound()
            &&& after.work.solver_attempts >= before.work.solver_attempts
            &&& after.work.iterations >= before.work.iterations
            &&& after.work.primitive_samples >= before.work.primitive_samples
            &&& granted && before.cold_ceiling is Some ==> !Ledger::exceeds(
                after.work.solver_attempts as int,
                after.work.iterations as int,
                after.work.primitive_samples as int,
                before.cold_ceiling->0,
            )
            &&& !granted ==> after.work.solver_attempts == before.work.solver_attempts
                && after.work.iterations == before.work.iterations && after.work.primitive_samples
                == before.work.primitive_samples
        }),
{
}

/// An exhausted ledger grants nothing and does not change.
pub proof fn law_exhaustion_latches(
    before: Ledger,
    solvers: usize,
    iterations: usize,
    samples: usize,
)
    requires
        before.work.budget_exhausted,
    ensures
        before.charged(solvers, iterations, samples) == (before, false),
{
}

/// The ledger after a cold round of requests, each of which may start over
/// after a deferral.
pub open spec fn after_cold_round(start: Ledger, asks: Seq<WorkAllowance>) -> Ledger
    decreases asks.len(),
{
    if asks.len() == 0 {
        start
    } else {
        let ask = asks.last();
        let before = after_cold_round(start, asks.drop_last());
        Ledger { cold_deferred: false, ..before }.charged(
            ask.solvers,
            ask.iterations,
            ask.samples,
        ).0
    }
}

proof fn lemma_cold_round_stays_below(start: Ledger, asks: Seq<WorkAllowance>)
    requires
        start.sound(),
        !start.work.budget_exhausted,
        start.cold_ceiling matches Some(ceiling) && {
            &&& !Ledger::exceeds(
                start.work.solver_attempts as int,
                start.work.iterations as int,
                start.work.primitive_samples as int,
                ceiling,
            )
            &&& ceiling.solvers <= start.work.solver_limit
            &&& ceiling.iterations <= start.work.iteration_limit
            &&& ceiling.samples <= start.work.sample_limit
        },
    ensures
        ({
            let end = after_cold_round(start, asks);
            &&& end.sound()
            &&& !end.work.budget_exhausted
            &&& end.cold_ceiling == start.cold_ceiling
            &&& end.work.solver_limit == start.work.solver_limit
            &&& end.work.iteration_limit == start.work.iteration_limit
            &&& end.work.sample_limit == start.work.sample_limit
            &&& !Ledger::exceeds(
                end.work.solver_attempts as int,
                end.work.iterations as int,
                end.work.primitive_samples as int,
                start.cold_ceiling->0,
            )
        }),
    decreases asks.len(),
{
    if asks.len() > 0 {
        lemma_cold_round_stays_below(start, asks.drop_last());
    }
}

/// What was reserved for a continuation can be charged once the reserve is
/// released, whatever a cold round asked for in between.
pub proof fn law_reserve_survives_the_cold_round(
    before: Ledger,
    max_distance: Binary64,
    resolution: Binary64,
    asks: Seq<WorkAllowance>,
)
    requires
        before.sound(),
        !before.work.budget_exhausted,
    ensures
        ({
            let held = before.reserving(max_distance, resolution);
            let end = after_cold_round(held, asks);
            let released = Ledger { cold_ceiling: None, cold_deferred: false, ..end };
            released.charged(
                held.work.recovery_reserved_solvers,
                held.work.recovery_reserved_iterations,
                held.work.recovery_reserved_samples,
            ).1
        }),
{
    lemma_cold_round_stays_below(before.reserving(max_distance, resolution), asks);
}

} // verus!
