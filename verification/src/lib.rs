//! GNSS position, velocity and time solving: the decisions of the epoch
//! resolution pipeline, with their contracts.
//!
//! Every real quantity (ranges, angles, signal strengths, covariance terms) is
//! carried as a [`scalar::Scalar`], the bit pattern of a binary64 number. The
//! library orders, selects, filters and stores such quantities; it never
//! rounds one, so each decision taken here is the decision that the exact
//! binary64 comparison takes.
pub mod ambiguity;
pub mod apriori;
pub mod bancroft;
pub mod bias;
pub mod candidate;
pub mod carrier;
pub mod cfg;
pub mod error;
pub mod navigation;
pub mod orbit;
pub mod pool;
pub mod prelude;
pub mod rtk;
pub mod scalar;
pub mod solver;
pub mod state;
pub mod sv;
pub mod time;
