use vstd::prelude::*;

verus! {

/// The role of a bus in the power-flow equations.
#[derive(Clone, Copy, Debug, PartialEq, Eq, Structural)]
pub enum BusType {
    /// Reference bus: magnitude and angle are fixed.
    Slack,
    /// Real power and magnitude are fixed; the angle is solved for.
    PV,
    /// Real and reactive power are fixed; magnitude and angle are solved for.
    PQ,
}

/// Which part of a bus voltage an unknown stands for.
#[derive(Clone, Copy, Debug, PartialEq, Eq, Structural)]
pub enum Quantity {
    Angle,
    Magnitude,
}

/// Whether a bus of kind `k` carries an unknown of kind `q`.
pub open spec fn has_unknown(k: BusType, q: Quantity) -> bool {
    match q {
        Quantity::Angle => k != BusType::Slack,
        Quantity::Magnitude => k == BusType::PQ,
    }
}

} // verus!
