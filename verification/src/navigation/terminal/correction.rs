//! Elimination in a system of three equations.
use crate::binary64::values::TRILLIONTH;
use crate::binary64::Binary64;
use vstd::prelude::*;

verus! {

/// One equation: three coefficients and a right side.
#[derive(Clone, Copy, Debug)]
pub struct Row {
    pub a: Binary64,
    pub b: Binary64,
    pub c: Binary64,
    pub rhs: Binary64,
}

/// Three equations.
#[derive(Clone, Copy, Debug)]
pub struct System {
    pub top: Row,
    pub middle: Row,
    pub bottom: Row,
}

impl Row {
    /// The coefficient in a column.
    pub open spec fn spec_at(self, column: u8) -> Binary64 {
        if column == 0 {
            self.a
        } else if column == 1 {
            self.b
        } else {
            self.c
        }
    }

    #[verifier::when_used_as_spec(spec_at)]
    pub fn at(self, column: u8) -> (r: Binary64)
        ensures
            r == self.spec_at(column),
    {
        if column == 0 {
            self.a
        } else if column == 1 {
            self.b
        } else {
            self.c
        }
    }

    /// The equation divided by a number, from a column on.
    pub open spec fn spec_divided(self, column: u8, divisor: Binary64) -> Self {
        Row {
            a: if column == 0 {
                self.a.over(divisor)
            } else {
                self.a
            },
            b: if column <= 1 {
                self.b.over(divisor)
            } else {
                self.b
            },
            c: self.c.over(divisor),
            rhs: self.rhs.over(divisor),
        }
    }

    #[verifier::when_used_as_spec(spec_divided)]
    pub fn divided(self, column: u8, divisor: Binary64) -> (r: Self)
        ensures
            r == self.spec_divided(column, divisor),
    {
        Row {
            a: if column == 0 {
                self.a.over(divisor)
            } else {
                self.a
            },
            b: if column <= 1 {
                self.b.over(divisor)
            } else {
                self.b
            },
            c: self.c.over(divisor),
            rhs: self.rhs.over(divisor),
        }
    }

    /// The equation less a multiple of another, from a column on.
    pub open spec fn spec_reduced(self, column: u8, pivot: Row) -> Self {
        let scale = self.at(column);
        Row {
            a: if column == 0 {
                self.a.minus(scale.times(pivot.a))
            } else {
                self.a
            },
            b: if column <= 1 {
                self.b.minus(scale.times(pivot.b))
            } else {
                self.b
            },
            c: self.c.minus(scale.times(pivot.c)),
            rhs: self.rhs.minus(scale.times(pivot.rhs)),
        }
    }

    #[verifier::when_used_as_spec(spec_reduced)]
    pub fn reduced(self, column: u8, pivot: Row) -> (r: Self)
        ensures
            r == self.spec_reduced(column, pivot),
    {
        let scale: Binary64 = self.at(column);
        Row {
            a: if column == 0 {
                self.a.minus(scale.times(pivot.a))
            } else {
                self.a
            },
            b: if column <= 1 {
                self.b.minus(scale.times(pivot.b))
            } else {
                self.b
            },
            c: self.c.minus(scale.times(pivot.c)),
            rhs: self.rhs.minus(scale.times(pivot.rhs)),
        }
    }

    /// Whether the coefficient in a column is at least as large as another's.
    pub open spec fn outweighs(self, column: u8, other: Row) -> bool {
        other.at(column).abs().total_rank() <= self.at(column).abs().total_rank()
    }

    fn does_outweigh(self, column: u8, other: Row) -> (r: bool)
        ensures
            r == self.outweighs(column, other),
    {
        !self.at(column).abs().precedes(other.at(column).abs())
    }
}

impl System {
    /// The system with the equation of the largest coefficient in a column, the
    /// last of equals, moved to that row.
    pub open spec fn spec_pivoted(self, column: u8) -> Self {
        let s = self;
        if column == 0 {
            if s.bottom.outweighs(0, s.top) && s.bottom.outweighs(0, s.middle) {
                System { top: s.bottom, bottom: s.top, ..s }
            } else if s.middle.outweighs(0, s.top) {
                System { top: s.middle, middle: s.top, ..s }
            } else {
                s
            }
        } else if column == 1 {
            if s.bottom.outweighs(1, s.middle) {
                System { middle: s.bottom, bottom: s.middle, ..s }
            } else {
                s
            }
        } else {
            s
        }
    }

    #[verifier::when_used_as_spec(spec_pivoted)]
    pub fn pivoted(self, column: u8) -> (r: Self)
        ensures
            r == self.spec_pivoted(column),
    {
        if column == 0 {
            if self.bottom.does_outweigh(0, self.top) && self.bottom.does_outweigh(
                0,
                self.middle,
            ) {
                System { top: self.bottom, middle: self.middle, bottom: self.top }
            } else if self.middle.does_outweigh(0, self.top) {
                System { top: self.middle, middle: self.top, bottom: self.bottom }
            } else {
                self
            }
        } else if column == 1 {
            if self.bottom.does_outweigh(1, self.middle) {
                System { top: self.top, middle: self.bottom, bottom: self.middle }
            } else {
                self
            }
        } else {
            self
        }
    }

    /// The equation of a row.
    pub open spec fn spec_row(self, column: u8) -> Row {
        if column == 0 {
            self.top
        } else if column == 1 {
            self.middle
        } else {
            self.bottom
        }
    }

    #[verifier::when_used_as_spec(spec_row)]
    pub fn row(self, column: u8) -> (r: Row)
        ensures
            r == self.spec_row(column),
    {
        if column == 0 {
            self.top
        } else if column == 1 {
            self.middle
        } else {
            self.bottom
        }
    }

    /// The system with one more variable eliminated from all other equations,
    /// or nothing where it is numerically singular.
    pub open spec fn eliminated(self, column: u8) -> Option<Self> {
        let s = self.pivoted(column);
        let divisor = s.row(column).at(column);
        let pivot = s.row(column).divided(column, divisor);
        if !divisor.finite() || divisor.abs().lt(Binary64::of(TRILLIONTH)) {
            None
        } else {
            Some(
                System {
                    top: if column == 0 {
                        pivot
                    } else {
                        s.top.reduced(column, pivot)
                    },
                    middle: if column == 1 {
                        pivot
                    } else {
                        s.middle.reduced(column, pivot)
                    },
                    bottom: if column >= 2 {
                        pivot
                    } else {
                        s.bottom.reduced(column, pivot)
                    },
                },
            )
        }
    }

    fn eliminate(self, column: u8) -> (r: Option<Self>)
        ensures
            r == self.eliminated(column),
    {
        let s: System = self.pivoted(column);
        let divisor: Binary64 = s.row(column).at(column);
        if !divisor.is_finite() || divisor.abs().less(Binary64::of(TRILLIONTH)) {
            return None;
        }
        let pivot: Row = s.row(column).divided(column, divisor);
        Some(
            System {
                top: if column == 0 {
                    pivot
                } else {
                    s.top.reduced(column, pivot)
                },
                middle: if column == 1 {
                    pivot
                } else {
                    s.middle.reduced(column, pivot)
                },
                bottom: if column >= 2 {
                    pivot
                } else {
                    s.bottom.reduced(column, pivot)
                },
            },
        )
    }

    /// The solution by elimination with partial pivoting, where it is finite.
    pub open spec fn solved(self) -> Option<(Binary64, Binary64, Binary64)> {
        match self.eliminated(0) {
            None => None,
            Some(s) => match s.eliminated(1) {
                None => None,
                Some(s) => match s.eliminated(2) {
                    None => None,
                    Some(s) => if s.top.rhs.finite() && s.middle.rhs.finite()
                        && s.bottom.rhs.finite() {
                        Some((s.top.rhs, s.middle.rhs, s.bottom.rhs))
                    } else {
                        None
                    },
                },
            },
        }
    }
}

/// Solves a system of three equations. A singular one has no solution here.
pub fn solve_endpoint_correction(system: System) -> (r: Option<(Binary64, Binary64, Binary64)>)
    ensures
        r == system.solved(),
{
    let s: System = match system.eliminate(0) {
        None => {
            return None;
        },
        Some(s) => s,
    };
    let s: System = match s.eliminate(1) {
        None => {
            return None;
        },
        Some(s) => s,
    };
    let s: System = match s.eliminate(2) {
        None => {
            return None;
        },
        Some(s) => s,
    };
    if s.top.rhs.is_finite() && s.middle.rhs.is_finite() && s.bottom.rhs.is_finite() {
        Some((s.top.rhs, s.middle.rhs, s.bottom.rhs))
    } else {
        None
    }
}

} // verus!
