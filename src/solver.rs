use vstd::prelude::*;

verus! {

/// Where a Newton-Raphson run stands.
#[derive(Clone, Copy, Debug, PartialEq, Eq, Structural)]
pub enum Phase {
    /// Iteration `iteration`: injections and the mismatch are to be computed
    /// and compared with the tolerance.
    Measure { iteration: usize },
    /// Iteration `iteration`: the Jacobian is to be built and the linear
    /// system for the step solved.
    Solve { iteration: usize },
    /// The mismatch fell below the tolerance at iteration `iteration`, after
    /// that many updates.
    Converged { iteration: usize },
    /// The iteration cap was reached without convergence.
    NonConverged,
    /// The linear system of a step had no unique solution.
    SingularJacobian,
}

/// What the numerical work of a phase found.
#[derive(Clone, Copy, Debug, PartialEq, Eq, Structural)]
pub enum Event {
    /// The largest absolute mismatch was (or was not) strictly below the
    /// tolerance.
    Mismatch { below_tolerance: bool },
    /// The linear system was (or was not) solved.
    Step { solved: bool },
}

/// The next phase, and whether the solved step is to be added to the state
/// before entering it.
#[derive(Clone, Copy, Debug, PartialEq, Eq, Structural)]
pub struct Transition {
    pub next: Phase,
    pub apply_update: bool,
}

pub open spec fn is_terminal_spec(p: Phase) -> bool {
    match p {
        Phase::Measure { .. } | Phase::Solve { .. } => false,
        _ => true,
    }
}

/// The phase a run starts in: no iteration at all when the cap is zero.
pub open spec fn start_phase(max_iterations: usize) -> Phase {
    if max_iterations == 0 {
        Phase::NonConverged
    } else {
        Phase::Measure { iteration: 0 }
    }
}

/// Whether `e` is the kind of event that phase `p` waits for.
pub open spec fn event_fits(p: Phase, e: Event) -> bool {
    match (p, e) {
        (Phase::Measure { .. }, Event::Mismatch { .. }) => true,
        (Phase::Solve { .. }, Event::Step { .. }) => true,
        _ => false,
    }
}

/// One move of the solver. An event that the phase does not wait for
/// changes nothing.
pub open spec fn transition(p: Phase, e: Event, max_iterations: usize) -> Transition {
    match (p, e) {
        (Phase::Measure { iteration }, Event::Mismatch { below_tolerance }) => {
            if below_tolerance {
                Transition { next: Phase::Converged { iteration }, apply_update: false }
            } else {
                Transition { next: Phase::Solve { iteration }, apply_update: false }
            }
        },
        (Phase::Solve { iteration }, Event::Step { solved }) => {
            if !solved {
                Transition { next: Phase::SingularJacobian, apply_update: false }
            } else if iteration + 1 >= max_iterations {
                Transition { next: Phase::NonConverged, apply_update: true }
            } else {
                Transition {
                    next: Phase::Measure { iteration: (iteration + 1) as usize },
                    apply_update: true,
                }
            }
        },
        _ => Transition { next: p, apply_update: false },
    }
}

/// A phase that a run with cap `max_iterations` can reach.
pub open spec fn phase_valid(p: Phase, max_iterations: usize) -> bool {
    match p {
        Phase::Measure { iteration } => iteration < max_iterations,
        Phase::Solve { iteration } => iteration < max_iterations,
        Phase::Converged { iteration } => iteration < max_iterations,
        _ => true,
    }
}

/// Events still possible before a run from `p` must have ended.
pub open spec fn remaining_moves(p: Phase, max_iterations: usize) -> int {
    match p {
        Phase::Measure { iteration } => 2 * (max_iterations - iteration),
        Phase::Solve { iteration } => 2 * (max_iterations - iteration) - 1,
        _ => 0,
    }
}

/// The phase a run with cap `max_iterations` starts in.
pub fn start(max_iterations: usize) -> (r: Phase)
    ensures
        r == start_phase(max_iterations),
{
    if max_iterations == 0 {
        Phase::NonConverged
    } else {
        Phase::Measure { iteration: 0 }
    }
}

/// Whether a run in phase `p` has ended.
pub fn is_terminal(p: Phase) -> (r: bool)
    ensures
        r == is_terminal_spec(p),
{
    match p {
        Phase::Measure { .. } | Phase::Solve { .. } => false,
        _ => true,
    }
}

/// Moves a run from phase `p` on event `e`: after the mismatch, converge or
/// go on to solve; after the solve, stop on a singular system, else apply
/// the step and measure again, unless the cap is reached.
pub fn step(p: Phase, e: Event, max_iterations: usize) -> (r: Transition)
    requires
        phase_valid(p, max_iterations),
    ensures
        r == transition(p, e, max_iterations),
{
    match (p, e) {
        (Phase::Measure { iteration }, Event::Mismatch { below_tolerance }) => {
            if below_tolerance {
                Transition { next: Phase::Converged { iteration }, apply_update: false }
            } else {
                Transition { next: Phase::Solve { iteration }, apply_update: false }
            }
        },
        (Phase::Solve { iteration }, Event::Step { solved }) => {
            if !solved {
                Transition { next: Phase::SingularJacobian, apply_update: false }
            } else if iteration + 1 >= max_iterations {
                Transition { next: Phase::NonConverged, apply_update: true }
            } else {
                Transition { next: Phase::Measure { iteration: iteration + 1 }, apply_update: true }
            }
        },
        _ => Transition { next: p, apply_update: false },
    }
}

/// A run's phases stay valid, and every awaited event brings the run
/// strictly closer to its end: a run ends after at most
/// `2 * max_iterations` events, in one of the three outcomes. An update is
/// applied only after a solved step, and moves the run on to the next
/// iteration or, at the cap, to non-convergence: at most `max_iterations`
/// updates in all.
pub proof fn lemma_run_terminates(p: Phase, e: Event, max_iterations: usize)
    requires
        phase_valid(p, max_iterations),
    ensures
        phase_valid(start_phase(max_iterations), max_iterations),
        remaining_moves(start_phase(max_iterations), max_iterations) == 2 * max_iterations,
        phase_valid(transition(p, e, max_iterations).next, max_iterations),
        0 <= remaining_moves(p, max_iterations),
        is_terminal_spec(p) <==> remaining_moves(p, max_iterations) == 0,
        !is_terminal_spec(p) && event_fits(p, e) ==> remaining_moves(
            transition(p, e, max_iterations).next,
            max_iterations,
        ) < remaining_moves(p, max_iterations),
        transition(p, e, max_iterations).apply_update <==> (p is Solve && e == (Event::Step {
            solved: true,
        })),
        transition(p, e, max_iterations).apply_update ==> (transition(p, e, max_iterations).next
            == Phase::NonConverged && p->Solve_iteration + 1 == max_iterations) || transition(
            p,
            e,
            max_iterations,
        ).next == (Phase::Measure { iteration: (p->Solve_iteration + 1) as usize }),
{
}

/// A terminal phase is never left: the outcome of a run is final.
pub proof fn lemma_terminal_is_final(p: Phase, e: Event, max_iterations: usize)
    requires
        is_terminal_spec(p),
    ensures
        transition(p, e, max_iterations) == (Transition { next: p, apply_update: false }),
{
}

/// A run started from a state whose mismatch is already below the tolerance
/// converges at once, at iteration zero, without any update: the state comes
/// back unchanged.
pub proof fn lemma_fixed_point_returns_at_once(max_iterations: usize)
    requires
        max_iterations > 0,
    ensures
        transition(
            start_phase(max_iterations),
            Event::Mismatch { below_tolerance: true },
            max_iterations,
        ) == (Transition { next: Phase::Converged { iteration: 0 }, apply_update: false }),
{
}

} // verus!
