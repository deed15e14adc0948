//! Structural core of an AC power-flow solver: the ordering of unknowns,
//! the Jacobian's block layout, the admittance-matrix stamp plan, the
//! topology checks and the Newton-Raphson iteration state machine.

pub mod admittance;
pub mod layout;
pub mod solver;
pub mod topology;
pub mod types;
