//! The navigation filter and the state it carries.
use crate::scalar::Scalar;
use vstd::prelude::*;

verus! {

/// Navigation filter
#[derive(Clone, Copy, Debug, PartialEq, Eq, Structural)]
pub enum Filter {
    /// No filter: each epoch is solved by least squares, from scratch
    Bypass,
    /// Least squares, refined with what the previous epochs gave
    LSQ,
    /// Kalman filter
    Kalman,
}

impl Default for Filter {
    fn default() -> (r: Self)
        ensures
            r == Filter::LSQ,
    {
        Filter::LSQ
    }
}

/// The eight unknowns of the filter: three coordinates, the clock offset
/// as a distance, and four ambiguities.
#[derive(Clone, Copy, Debug, PartialEq, Eq)]
pub struct Vector8 {
    pub cells: [Scalar; 8],
}

/// An eight by eight matrix, row after row.
#[derive(Clone, Copy, Debug, PartialEq, Eq)]
pub struct Matrix8 {
    pub cells: [Scalar; 64],
}

/// A four by four matrix, row after row.
#[derive(Clone, Copy, Debug, PartialEq, Eq)]
pub struct Matrix4 {
    pub cells: [Scalar; 16],
}

impl Matrix8 {
    /// The term on row `i` and column `j`.
    pub open spec fn at(self, i: int, j: int) -> Scalar {
        self.cells@[i * 8 + j]
    }

    /// The term on row `i` and column `j`.
    pub fn get(&self, i: usize, j: usize) -> (s: Scalar)
        requires
            i < 8,
            j < 8,
        ensures
            s == self.at(i as int, j as int),
    {
        self.cells[i * 8 + j]
    }

    /// The upper left quarter of the matrix.
    pub fn upper_left(&self) -> (m: Matrix4)
        ensures
            forall|i: int, j: int| 0 <= i < 4 && 0 <= j < 4 ==> #[trigger] m.at(i, j) == self.at(i, j),
    {
        let c = &self.cells;
        let m = Matrix4 {
            cells: [
                c[0], c[1], c[2], c[3],
                c[8], c[9], c[10], c[11],
                c[16], c[17], c[18], c[19],
                c[24], c[25], c[26], c[27],
            ],
        };
        assert forall|i: int, j: int| 0 <= i < 4 && 0 <= j < 4 implies #[trigger] m.at(i, j)
            == self.at(i, j) by {
            assert(i == 0 || i == 1 || i == 2 || i == 3);
            assert(j == 0 || j == 1 || j == 2 || j == 3);
        }
        m
    }
}

impl Matrix4 {
    /// The term on row `i` and column `j`.
    pub open spec fn at(self, i: int, j: int) -> Scalar {
        self.cells@[i * 4 + j]
    }

    /// The term on row `i` and column `j`.
    pub fn get(&self, i: usize, j: usize) -> (s: Scalar)
        requires
            i < 4,
            j < 4,
        ensures
            s == self.at(i as int, j as int),
    {
        self.cells[i * 4 + j]
    }
}

/// What least squares carries from one epoch to the next.
#[derive(Clone, Copy, Debug, PartialEq, Eq)]
pub struct LSQState {
    /// Covariance of the estimate
    pub p: Matrix8,
    /// The estimate
    pub x: Vector8,
}

/// What the Kalman filter carries from one epoch to the next.
#[derive(Clone, Copy, Debug, PartialEq, Eq)]
pub struct KFState {
    /// Process noise
    pub q: Matrix8,
    /// Covariance of the estimate
    pub p: Matrix8,
    /// The estimate
    pub x: Vector8,
    /// State transition
    pub phi: Matrix8,
}

/// What a filter carries from one epoch to the next.
#[derive(Clone, Copy, Debug, PartialEq, Eq)]
pub enum FilterState {
    Lsq(LSQState),
    Kf(KFState),
}

/// The computation that an epoch is solved by.
#[derive(Clone, Copy, Debug, PartialEq, Eq, Structural)]
pub enum Kernel {
    /// Weighted least squares
    LeastSquares,
    /// Kalman prediction and update
    Kalman,
}

/// How an epoch is to be solved: by which computation, and from which
/// carried state, if any.
#[derive(Clone, Copy, Debug, PartialEq, Eq)]
pub struct Resolution {
    pub kernel: Kernel,
    pub prior: Option<FilterState>,
}

impl FilterState {
    /// The estimate: three coordinates, the clock offset as a distance, four ambiguities.
    pub open spec fn unknowns(self) -> Vector8 {
        match self {
            FilterState::Lsq(state) => state.x,
            FilterState::Kf(state) => state.x,
        }
    }

    /// The state of least squares.
    pub fn lsq(state: LSQState) -> (s: Self)
        ensures
            s == FilterState::Lsq(state),
    {
        FilterState::Lsq(state)
    }

    /// The state of the Kalman filter.
    pub fn kf(state: KFState) -> (s: Self)
        ensures
            s == FilterState::Kf(state),
    {
        FilterState::Kf(state)
    }

    /// The estimate.
    pub fn estimate(&self) -> (x: Vector8)
        ensures
            x == self.unknowns(),
    {
        match self {
            FilterState::Lsq(state) => state.x,
            FilterState::Kf(state) => state.x,
        }
    }

    /// The four ambiguities of the estimate.
    pub fn ambiguities(&self) -> (r: Vec<Scalar>)
        ensures
            r@ == self.unknowns().cells@.subrange(4, 8),
    {
        let x = self.estimate();
        let mut r: Vec<Scalar> = Vec::new();
        let mut i: usize = 4;
        while i < 8
            invariant
                4 <= i <= 8,
                r@ == x.cells@.subrange(4, i as int),
            decreases 8 - i,
        {
            r.push(x.cells[i]);
            i += 1;
            assert(r@ =~= x.cells@.subrange(4, i as int));
        }
        r
    }
}

impl Filter {
    /// How an epoch is to be solved, where `p_state` is what the previous
    /// epochs left: without a filter, by least squares from scratch; with
    /// least squares or the Kalman filter, from the carried state where it
    /// is one of that filter, from scratch where it is not.
    pub open spec fn resolution(self, p_state: Option<FilterState>) -> Resolution {
        match self {
            Filter::Bypass => Resolution { kernel: Kernel::LeastSquares, prior: None },
            Filter::LSQ => Resolution {
                kernel: Kernel::LeastSquares,
                prior: match p_state {
                    Some(FilterState::Lsq(_)) => p_state,
                    _ => None,
                },
            },
            Filter::Kalman => Resolution {
                kernel: Kernel::Kalman,
                prior: match p_state {
                    Some(FilterState::Kf(_)) => p_state,
                    _ => None,
                },
            },
        }
    }

    /// How an epoch is to be solved, where `p_state` is what the previous epochs left.
    pub fn resolve(&self, p_state: Option<FilterState>) -> (r: Resolution)
        ensures
            r == self.resolution(p_state),
    {
        match self {
            Filter::Bypass => Resolution { kernel: Kernel::LeastSquares, prior: None },
            Filter::LSQ => Resolution {
                kernel: Kernel::LeastSquares,
                prior: match p_state {
                    Some(FilterState::Lsq(_)) => p_state,
                    _ => None,
                },
            },
            Filter::Kalman => Resolution {
                kernel: Kernel::Kalman,
                prior: match p_state {
                    Some(FilterState::Kf(_)) => p_state,
                    _ => None,
                },
            },
        }
    }
}

} // verus!
