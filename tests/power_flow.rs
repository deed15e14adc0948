use gridoxide::admittance::{admittance_stamps, Branch, StampTerm};
use gridoxide::layout::{Block, UnknownLayout};
use gridoxide::solver::{start, step, Event, Phase};
use gridoxide::types::{BusType, Quantity};
use nalgebra::{Complex, DMatrix, DVector};

#[derive(Clone, Debug, PartialEq)]
struct Bus {
    kind: BusType,
    vm: f64,
    va: f64,
    p: f64,
    q: f64,
}

struct Line {
    from: usize,
    to: usize,
    r: f64,
    x: f64,
    b: f64,
}

fn ybus(n: usize, lines: &[Line]) -> DMatrix<Complex<f64>> {
    let branches: Vec<Branch> = lines.iter().map(|l| Branch { from: l.from, to: l.to }).collect();
    let mut y = DMatrix::from_element(n, n, Complex::new(0.0, 0.0));
    for s in admittance_stamps(&branches) {
        let ln = &lines[s.line];
        let yl = Complex::new(1.0, 0.0) / Complex::new(ln.r, ln.x);
        match s.term {
            StampTerm::SeriesPlusHalfShunt => y[(s.row, s.col)] += yl + Complex::new(0.0, ln.b / 2.0),
            StampTerm::NegatedSeries => y[(s.row, s.col)] -= yl,
        }
    }
    y
}

fn injections(buses: &[Bus], y: &DMatrix<Complex<f64>>) -> (Vec<f64>, Vec<f64>) {
    let v = DVector::from_iterator(buses.len(), buses.iter().map(|b| Complex::from_polar(b.vm, b.va)));
    let s = v.component_mul(&(y * v.clone()).conjugate());
    (s.iter().map(|c| c.re).collect(), s.iter().map(|c| c.im).collect())
}

fn solve(buses: &mut [Bus], y: &DMatrix<Complex<f64>>, tol: f64, max: usize) -> (Phase, Vec<f64>) {
    let kinds: Vec<BusType> = buses.iter().map(|b| b.kind).collect();
    let layout = UnknownLayout::new(&kinds);
    let m = layout.size();
    let mut history = Vec::new();
    let mut mis = DVector::from_element(m, 0.0);
    let (mut pc, mut qc) = (Vec::new(), Vec::new());
    let mut dx: Option<DVector<f64>> = None;
    let mut phase = start(max);
    loop {
        let event = match phase {
            Phase::Measure { .. } => {
                (pc, qc) = injections(buses, y);
                for j in 0..m {
                    let u = layout.unknown(j);
                    mis[j] = match u.quantity {
                        Quantity::Angle => buses[u.bus].p - pc[u.bus],
                        Quantity::Magnitude => buses[u.bus].q - qc[u.bus],
                    };
                }
                let mx = mis.iter().fold(0.0f64, |a, &x| a.max(x.abs()));
                history.push(mx);
                Event::Mismatch { below_tolerance: mx < tol }
            }
            Phase::Solve { .. } => {
                let jac = DMatrix::from_fn(m, m, |r, c| {
                    let e = layout.jacobian_entry(r, c);
                    let (i, k) = (e.row_bus, e.col_bus);
                    let (vi, vk) = (buses[i].vm, buses[k].vm);
                    let g = y[(i, k)].re;
                    let bb = y[(i, k)].im;
                    let a = buses[i].va - buses[k].va;
                    match (e.block, e.diagonal) {
                        (Block::H, true) => -qc[i] - vi * vi * bb,
                        (Block::H, false) => vi * vk * (g * a.sin() - bb * a.cos()),
                        (Block::N, true) => pc[i] / vi + vi * g,
                        (Block::N, false) => vi * (g * a.cos() + bb * a.sin()),
                        (Block::M, true) => pc[i] - vi * vi * g,
                        (Block::M, false) => -vi * vk * (g * a.cos() + bb * a.sin()),
                        (Block::L, true) => qc[i] / vi - vi * bb,
                        (Block::L, false) => vi * (g * a.sin() - bb * a.cos()),
                    }
                });
                dx = jac.lu().solve(&mis);
                Event::Step { solved: dx.is_some() }
            }
            _ => break,
        };
        let t = step(phase, event, max);
        if t.apply_update {
            let d = dx.take().unwrap();
            for b in 0..buses.len() {
                if let Some(j) = layout.angle_slot(b) {
                    buses[b].va += d[j];
                }
                if let Some(j) = layout.magnitude_slot(b) {
                    buses[b].vm += d[j];
                }
            }
        }
        phase = t.next;
    }
    (phase, history)
}

fn network() -> (Vec<Bus>, Vec<Line>) {
    let buses = vec![
        Bus { kind: BusType::Slack, vm: 1.06, va: 0.0, p: 0.0, q: 0.0 },
        Bus { kind: BusType::PV, vm: 1.04, va: 0.0, p: 0.5, q: 0.0 },
        Bus { kind: BusType::PQ, vm: 1.0, va: 0.0, p: -0.6, q: -0.25 },
    ];
    let lines = vec![
        Line { from: 0, to: 1, r: 0.02, x: 0.06, b: 0.03 },
        Line { from: 0, to: 2, r: 0.08, x: 0.24, b: 0.025 },
        Line { from: 1, to: 2, r: 0.06, x: 0.18, b: 0.02 },
    ];
    (buses, lines)
}

#[test]
fn three_bus_scenario_converges() {
    let (mut buses, lines) = network();
    let y = ybus(3, &lines);
    let (phase, _) = solve(&mut buses, &y, 1e-6, 20);
    assert!(matches!(phase, Phase::Converged { .. }));
    let expected = [(1.06, 0.0), (1.04, 0.014349), (1.003358, -0.043141)];
    for (b, (vm, va)) in buses.iter().zip(expected.iter()) {
        assert!((b.vm - vm).abs() < 1e-5);
        assert!((b.va - va).abs() < 1e-5);
    }
}

#[test]
fn slack_and_pv_magnitude_untouched() {
    let (mut buses, lines) = network();
    let y = ybus(3, &lines);
    solve(&mut buses, &y, 1e-6, 20);
    assert_eq!(buses[0].vm, 1.06);
    assert_eq!(buses[0].va, 0.0);
    assert_eq!(buses[1].vm, 1.04);
}

#[test]
fn mismatch_does_not_grow() {
    let (mut buses, lines) = network();
    let y = ybus(3, &lines);
    let (_, history) = solve(&mut buses, &y, 1e-6, 20);
    assert!(history.len() >= 2);
    for w in history.windows(2) {
        assert!(w[1] <= w[0]);
    }
}

#[test]
fn runs_are_deterministic() {
    let (mut a, lines) = network();
    let (mut b, _) = network();
    let y = ybus(3, &lines);
    let ra = solve(&mut a, &y, 1e-6, 20);
    let rb = solve(&mut b, &y, 1e-6, 20);
    assert_eq!(ra, rb);
    assert_eq!(a, b);
}

#[test]
fn converged_state_is_a_fixed_point() {
    let (mut buses, lines) = network();
    let y = ybus(3, &lines);
    solve(&mut buses, &y, 1e-6, 20);
    let before = buses.clone();
    let (phase, history) = solve(&mut buses, &y, 1e-6, 20);
    assert_eq!(phase, Phase::Converged { iteration: 0 });
    assert_eq!(history.len(), 1);
    assert_eq!(buses, before);
}

#[test]
fn ybus_is_symmetric() {
    let (_, lines) = network();
    let y = ybus(3, &lines);
    for i in 0..3 {
        for k in 0..3 {
            assert_eq!(y[(i, k)], y[(k, i)]);
        }
    }
}

#[test]
fn no_lines_means_zero_injections() {
    let (buses, _) = network();
    let y = ybus(3, &[]);
    let (p, q) = injections(&buses, &y);
    assert!(p.iter().chain(q.iter()).all(|&x| x == 0.0));
}

#[test]
fn one_iteration_cap_gives_up() {
    let (mut buses, lines) = network();
    let y = ybus(3, &lines);
    let (phase, history) = solve(&mut buses, &y, 1e-6, 1);
    assert_eq!(phase, Phase::NonConverged);
    assert_eq!(history.len(), 1);
    assert!(buses[2].vm != 1.0);
}
