//! The reference site of differential positioning.
use crate::candidate::Observation;
use crate::carrier::Carrier;
use crate::sv::SV;
use crate::time::Epoch;
use vstd::prelude::*;

verus! {

/// A reference site. The solver asks what the site observed of `sv` on
/// `carrier` at the instant `t`; `None` tells that it observed nothing, and
/// leaves that signal out of differential positioning.
pub trait BaseStation {
    fn observe(&mut self, t: Epoch, sv: SV, carrier: Carrier) -> Option<Observation>;
}

} // verus!
