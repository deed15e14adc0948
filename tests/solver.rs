use gridoxide::solver::{is_terminal, start, step, Event, Phase, Transition};

#[test]
fn zero_cap_does_not_iterate() {
    assert_eq!(start(0), Phase::NonConverged);
    assert!(is_terminal(start(0)));
    assert_eq!(start(20), Phase::Measure { iteration: 0 });
    assert!(!is_terminal(start(20)));
}

#[test]
fn converged_start_returns_at_once() {
    let t = step(start(20), Event::Mismatch { below_tolerance: true }, 20);
    assert_eq!(t, Transition { next: Phase::Converged { iteration: 0 }, apply_update: false });
}

#[test]
fn large_mismatch_leads_to_solve() {
    let t = step(Phase::Measure { iteration: 3 }, Event::Mismatch { below_tolerance: false }, 20);
    assert_eq!(t, Transition { next: Phase::Solve { iteration: 3 }, apply_update: false });
}

#[test]
fn singular_system_stops_without_update() {
    let t = step(Phase::Solve { iteration: 2 }, Event::Step { solved: false }, 20);
    assert_eq!(t, Transition { next: Phase::SingularJacobian, apply_update: false });
}

#[test]
fn solved_step_updates_and_measures_again() {
    let t = step(Phase::Solve { iteration: 2 }, Event::Step { solved: true }, 20);
    assert_eq!(t, Transition { next: Phase::Measure { iteration: 3 }, apply_update: true });
}

#[test]
fn last_step_updates_then_gives_up() {
    let t = step(Phase::Solve { iteration: 19 }, Event::Step { solved: true }, 20);
    assert_eq!(t, Transition { next: Phase::NonConverged, apply_update: true });
}

#[test]
fn unexpected_event_changes_nothing() {
    let p = Phase::Measure { iteration: 1 };
    assert_eq!(step(p, Event::Step { solved: true }, 20), Transition { next: p, apply_update: false });
    let q = Phase::Converged { iteration: 4 };
    assert_eq!(
        step(q, Event::Mismatch { below_tolerance: false }, 20),
        Transition { next: q, apply_update: false }
    );
}

#[test]
fn never_converging_run_ends_after_cap() {
    let max = 5;
    let mut p = start(max);
    let mut updates = 0;
    let mut events = 0;
    while !is_terminal(p) {
        let e = match p {
            Phase::Measure { .. } => Event::Mismatch { below_tolerance: false },
            _ => Event::Step { solved: true },
        };
        let t = step(p, e, max);
        if t.apply_update {
            updates += 1;
        }
        events += 1;
        p = t.next;
    }
    assert_eq!(p, Phase::NonConverged);
    assert_eq!(updates, 5);
    assert_eq!(events, 10);
}
