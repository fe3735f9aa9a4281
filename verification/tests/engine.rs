use rustfilm::analysis::{
    is_significant, largest, outside_push, reset_stress, stress_extremes, stress_link,
};
use rustfilm::cell::{copy_cells, is_well_linked, Cell, Pos, Stress};
use rustfilm::forces::{ForceFunc, Push, Thrust, Wall};
use rustfilm::integrate::{
    can_double, must_halve, Phase, StepControl, Trajectory, FIRST_STEP_BITS,
};
use rustfilm::scalar::Scalar;
use rustfilm::schemes::{
    bashforth, growth_exponent, moulton, safety, Ratio, Scheme, CORRECTOR_BASE, HISTORY,
    PREDICTOR_BASE,
};
use rustfilm::settings::Settings;
use rustfilm::simulation::{
    drive, interlace, pair_counts, repels, snap, spring_link, velocity_of, Drive, Link,
};

type Derivs = fn(f64, &mut Vec<Cell>, &Settings) -> Vec<f64>;
type Path = Vec<(i32, f64, Vec<Cell>)>;

fn num(s: Scalar) -> f64 {
    f64::from_bits(s.to_bits())
}

fn s(v: f64) -> Scalar {
    Scalar::from_bits(v.to_bits())
}

fn value(r: Ratio) -> f64 {
    r.num as f64 / r.den as f64
}

fn xy(p: Pos) -> (f64, f64) {
    (num(p.x), num(p.y))
}

fn pos(v: (f64, f64)) -> Pos {
    Pos { x: s(v.0), y: s(v.1) }
}

fn spring_force(link: Link, dist: f64, set: &Settings) -> f64 {
    let force = match link {
        Link::Close => num(set.spring_k) * (dist - num(set.spring_relax_close)),
        Link::Far => num(set.spring_k) * (dist - num(set.spring_relax_far)),
        Link::Free => 0.0,
    };
    num(snap(s(force)))
}

fn force_vector(push: Push, t: f64, y: f64, set: &Settings) -> (f64, f64) {
    let thrust = match push.thrust {
        Thrust::Idle => 0.0,
        Thrust::Steady => num(set.extforce_x),
        Thrust::Wave => num(set.sineamp) * (num(set.sineomega) * t).sin(),
    };
    let wall = match push.wall {
        Wall::Upper => num(set.restraint_k) * (1.0 - y),
        Wall::Lower => num(set.restraint_k) * -y,
        Wall::Clear => 0.0,
    };
    (thrust, wall)
}

fn derivs(t: f64, y: &mut Vec<Cell>, set: &Settings) -> Vec<f64> {
    let lj_a = num(set.repl_epsilon) * num(set.repl_min).powi(12);
    let lj_b = num(set.repl_epsilon) * num(set.repl_min).powi(6);
    let grid = copy_cells(y);
    let mut velocities: Vec<Pos> = vec![];
    for (i, cell_a) in y.iter_mut().enumerate() {
        let here = xy(cell_a.pos);
        let mut net = (0.0, 0.0);
        for (j, cell_b) in grid.iter().enumerate() {
            let there = xy(cell_b.pos);
            let d = (there.0 - here.0, there.1 - here.1);
            let dist = (d.0 * d.0 + d.1 * d.1).sqrt();
            let mut force = spring_force(spring_link(cell_a, j), dist, set);
            if repels(s(dist), set) {
                force += 12.0 * lj_a * dist.powi(-13) - lj_b * dist.powi(-7);
            }
            let unit = (d.0 / dist, d.1 / dist);
            if pair_counts(&pos(unit), s(force)) {
                net.0 += force * unit.0;
                net.1 += force * unit.1;
            }
        }
        match drive(s(t), cell_a, i, set) {
            Drive::Pinned => net = (0.0, 0.0),
            Drive::Springs => {}
            Drive::Forced(push) => {
                let outside = force_vector(push, t, here.1, set);
                net.0 += outside.0;
                net.1 += outside.1;
            }
        }
        velocities.push(pos((net.0 / num(set.damping), net.1 / num(set.damping))));
    }
    interlace(&velocities).into_iter().map(num).collect()
}

fn slope(change: &[f64], i: usize) -> (f64, f64) {
    let flat: Vec<Scalar> = change.iter().map(|v| s(*v)).collect();
    xy(velocity_of(&flat, i).expect("a velocity for every cell"))
}

struct Attempt {
    solution: Vec<(f64, f64)>,
    companion: Vec<(f64, f64)>,
    pins: Vec<bool>,
}

fn distance(one: &[(f64, f64)], other: &[(f64, f64)]) -> f64 {
    one.iter()
        .zip(other.iter())
        .map(|(a, b)| (a.0 - b.0).powi(2) + (a.1 - b.1).powi(2))
        .sum::<f64>()
        .sqrt()
}

fn places(points: &[(f64, f64)]) -> Vec<Pos> {
    points.iter().map(|v| pos(*v)).collect()
}

fn attempt(scheme: Scheme, base: &Vec<Cell>, time: f64, dt: f64, dy: Derivs, set: &Settings) -> Attempt {
    let stages = scheme.stages();
    let start: Vec<(f64, f64)> = base.iter().map(|c| xy(c.pos)).collect();
    let mut state = copy_cells(base);
    let mut slopes: Vec<Vec<(f64, f64)>> = vec![];
    for k in 0..stages {
        for (i, cell) in state.iter_mut().enumerate() {
            let mut at = start[i];
            for (j, slope_j) in slopes.iter().enumerate() {
                let w = value(scheme.coupling(k, j));
                at.0 += w * dt * slope_j[i].0;
                at.1 += w * dt * slope_j[i].1;
            }
            cell.pos = pos(at);
        }
        let change = dy(time + value(scheme.node(k)) * dt, &mut state, set);
        slopes.push((0..state.len()).map(|i| slope(&change, i)).collect());
    }
    let combine = |weight: &dyn Fn(usize) -> f64| -> Vec<(f64, f64)> {
        start
            .iter()
            .enumerate()
            .map(|(i, from)| {
                let mut at = *from;
                for (k, slope_k) in slopes.iter().enumerate() {
                    at.0 += weight(k) * dt * slope_k[i].0;
                    at.1 += weight(k) * dt * slope_k[i].1;
                }
                at
            })
            .collect()
    };
    Attempt {
        solution: combine(&|k| value(scheme.weight(k))),
        companion: combine(&|k| value(scheme.companion(k))),
        pins: state.iter().map(|c| c.fixed).collect(),
    }
}

fn hand_over(run: Trajectory) -> Path {
    run.finish().into_iter().map(|(iter, time, cells)| (iter, num(time), cells)).collect()
}

fn fixed_steps(scheme: Scheme, grid: &Vec<Cell>, dt: f64, dy: Derivs, set: &Settings) -> Path {
    let mut run = Trajectory::start(grid);
    while run.is_running(set) {
        let time = num(run.time());
        let tried = attempt(scheme, run.cells(), time, dt, dy, set);
        run.advance(&places(&tried.solution), &tried.pins, s(time + dt));
    }
    hand_over(run)
}

fn euler(grid: &Vec<Cell>, dt: f64, dy: Derivs, set: &Settings) -> Path {
    fixed_steps(Scheme::Euler, grid, dt, dy, set)
}

fn rk(grid: &Vec<Cell>, dt: f64, dy: Derivs, set: &Settings) -> Path {
    fixed_steps(Scheme::Classic, grid, dt, dy, set)
}

fn rk45(grid: &Vec<Cell>, epsilon: f64, dt_min: f64, dt_max: f64, dy: Derivs, set: &Settings) -> (Path, Vec<f64>) {
    let mut run = Trajectory::start(grid);
    let mut control = StepControl::new(s(epsilon), s(dt_min), s(dt_max));
    let mut tuned: Vec<f64> = vec![];
    while run.is_running(set) {
        let time = num(run.time());
        let dt = num(control.dt);
        let tried = attempt(Scheme::Fehlberg, run.cells(), time, dt, dy, set);
        let error = distance(&tried.solution, &tried.companion);
        let growth = value(safety()) * (epsilon / error).powf(value(growth_exponent()));
        control.conclude(
            &mut run,
            &places(&tried.solution),
            &tried.pins,
            s(time + dt),
            s(error),
            s(dt * growth),
        );
        tuned.push(num(control.dt));
    }
    (hand_over(run), tuned)
}

fn rk_adaptive(grid: &Vec<Cell>, tol: f64, dy: Derivs, set: &Settings) -> Path {
    let mut run = Trajectory::start(grid);
    let mut dt = num(Scalar::from_bits(FIRST_STEP_BITS));
    while run.is_running(set) {
        let time = num(run.time());
        let full = attempt(Scheme::Classic, run.cells(), time, dt, dy, set);
        let half = attempt(Scheme::Classic, run.cells(), time, dt * 0.5, dy, set);
        if must_halve(s(distance(&half.solution, &full.solution)), s(tol)) {
            dt *= 0.5;
            continue;
        }
        let double = attempt(Scheme::Classic, run.cells(), time, dt * 2.0, dy, set);
        if can_double(s(distance(&half.solution, &double.solution)), s(tol)) {
            dt *= 2.0;
            run.advance(&places(&double.solution), &double.pins, s(time + dt));
        } else {
            run.advance(&places(&full.solution), &full.pins, s(time + dt));
        }
    }
    hand_over(run)
}

fn predictor_corrector(grid: &Vec<Cell>, dt: f64, dy: Derivs, set: &Settings) -> Path {
    let mut run = Trajectory::start(grid);
    loop {
        match run.plan_multistep(set) {
            Phase::Done => break,
            Phase::Bootstrap => {
                let time = num(run.time());
                let tried = attempt(Scheme::Classic, run.cells(), time, dt, dy, set);
                run.advance(&places(&tried.solution), &tried.pins, s(time + dt));
            }
            Phase::Multistep => {
                let time = num(run.time()) + dt;
                let newest = run.entries().len() - 1;
                let n = run.cells().len();
                let mut slopes: Vec<Vec<(f64, f64)>> = vec![];
                for back in 0..HISTORY {
                    let entry = &run.entries()[newest - back];
                    let mut state = copy_cells(&entry.2);
                    let change = dy(num(entry.1), &mut state, set);
                    slopes.push((0..n).map(|i| slope(&change, i)).collect());
                }
                let from = |back: usize, i: usize| xy(run.entries()[newest - back].2[i].pos);
                let mut state = copy_cells(run.cells());
                for (i, cell) in state.iter_mut().enumerate() {
                    let mut at = from(PREDICTOR_BASE, i);
                    for (k, slope_k) in slopes.iter().enumerate() {
                        at.0 += dt * value(bashforth(k)) * slope_k[i].0;
                        at.1 += dt * value(bashforth(k)) * slope_k[i].1;
                    }
                    cell.pos = pos(at);
                }
                let change = dy(time, &mut state, set);
                let positions: Vec<Pos> = (0..n)
                    .map(|i| {
                        let mut at = from(CORRECTOR_BASE, i);
                        let predicted = slope(&change, i);
                        at.0 += dt * value(moulton(0)) * predicted.0;
                        at.1 += dt * value(moulton(0)) * predicted.1;
                        for k in 1..HISTORY {
                            at.0 += dt * value(moulton(k)) * slopes[k - 1][i].0;
                            at.1 += dt * value(moulton(k)) * slopes[k - 1][i].1;
                        }
                        pos(at)
                    })
                    .collect();
                let pins: Vec<bool> = state.iter().map(|c| c.fixed).collect();
                run.advance(&positions, &pins, s(time));
            }
        }
    }
    hand_over(run)
}

fn get_strain(grid: &mut Vec<Cell>) -> ((f64, f64), f64) {
    for cell in grid.iter_mut() {
        let at = xy(cell.pos);
        let from = xy(cell.initial_pos);
        cell.strain = Some(pos((at.0 - from.0, at.1 - from.1)));
    }
    let strains: Vec<(f64, f64)> = grid.iter().filter_map(|c| c.strain).map(xy).collect();
    let count = grid.len() as f64;
    let lengths: Vec<Scalar> =
        strains.iter().map(|v| s((v.0 * v.0 + v.1 * v.1).sqrt())).collect();
    (
        (
            strains.iter().map(|v| v.0).sum::<f64>() / count,
            strains.iter().map(|v| v.1).sum::<f64>() / count,
        ),
        num(largest(&lengths)),
    )
}

fn get_stress(grid: &mut Vec<Cell>, t: f64, set: &Settings) -> (f64, f64, f64) {
    let old = copy_cells(grid);
    reset_stress(grid);
    for (i, cell_a) in grid.iter_mut().enumerate() {
        let here = xy(cell_a.pos);
        let mut tensor = [0.0f64; 4];
        for (j, cell_b) in old.iter().enumerate() {
            let link = match stress_link(cell_a, i, j) {
                Some(link) => link,
                None => continue,
            };
            let there = xy(cell_b.pos);
            let d = (there.0 - here.0, there.1 - here.1);
            let dist = (d.0 * d.0 + d.1 * d.1).sqrt();
            let force = spring_force(link, dist, set);
            let directed = (d.0 / dist * force, d.1 / dist * force);
            tensor[0] += directed.0 * d.0;
            tensor[1] += directed.1 * d.0;
            tensor[2] += directed.0 * d.1;
            tensor[3] += directed.1 * d.1;
        }
        let radius = num(cell_a.radius);
        if let Some(push) = outside_push(s(t), cell_a, i, set) {
            let force = force_vector(push, t, here.1, set);
            let magnitude = (force.0 * force.0 + force.1 * force.1).sqrt();
            if is_significant(s(magnitude)) {
                let reach = (force.0 / magnitude * radius, force.1 / magnitude * radius);
                tensor[0] += force.0 * reach.0;
                tensor[1] += force.1 * reach.0;
                tensor[2] += force.0 * reach.1;
                tensor[3] += force.1 * reach.1;
            }
        }
        let scaled = tensor.map(|entry| entry * -0.5);
        cell_a.tensor_stress = Some(Stress {
            a: s(scaled[0]),
            b: s(scaled[1]),
            c: s(scaled[2]),
            d: s(scaled[3]),
        });
        cell_a.stress = Some(s(scaled[0] + scaled[1]));
    }
    let (most, least) = stress_extremes(grid);
    let mean = grid.iter().filter_map(|c| c.stress).map(num).sum::<f64>() / grid.len() as f64;
    (num(most), num(least), mean)
}

/// Springs only: no repulsion, no outside force, damping one.
fn plain(rest: f64, del_t: f64) -> Settings {
    let mut set = Settings::new();
    set.spring_k = s(1.0);
    set.spring_relax_close = s(rest);
    set.spring_relax_far = s(rest);
    set.damping = s(1.0);
    set.del_t = s(del_t);
    set.repl_dist = s(0.0);
    set.repl_epsilon = s(0.0);
    set
}

fn pair(gap: f64) -> Vec<Cell> {
    let mut a = Cell::new(s(0.25), s(0.5), s(0.01)).unwrap();
    let mut b = Cell::new(s(0.25 + gap), s(0.5), s(0.01)).unwrap();
    a.neighbor_close = vec![1];
    b.neighbor_close = vec![0];
    vec![a, b]
}

fn square(side: f64) -> Vec<Cell> {
    let corners = [(0.25, 0.25), (0.25 + side, 0.25), (0.25, 0.25 + side), (0.25 + side, 0.25 + side)];
    let mut grid: Vec<Cell> =
        corners.iter().map(|c| Cell::new(s(c.0), s(c.1), s(0.01)).unwrap()).collect();
    // the sides are the springs; the diagonals are longer than the rest length
    grid[0].neighbor_close = vec![1, 2];
    grid[1].neighbor_close = vec![0, 3];
    grid[2].neighbor_close = vec![0, 3];
    grid[3].neighbor_close = vec![1, 2];
    grid
}

fn gap_of(cells: &Vec<Cell>) -> f64 {
    let a = xy(cells[0].pos);
    let b = xy(cells[1].pos);
    ((a.0 - b.0).powi(2) + (a.1 - b.1).powi(2)).sqrt()
}

fn all_methods(grid: &Vec<Cell>, set: &Settings) -> Vec<(&'static str, Path)> {
    vec![
        ("euler", euler(grid, 0.01, derivs, set)),
        ("rk", rk(grid, 0.01, derivs, set)),
        ("rk45", rk45(grid, 1e-9, 0.001, 0.1, derivs, set).0),
        ("rk_adaptive", rk_adaptive(grid, 1e-4, derivs, set)),
        ("predictor_corrector", predictor_corrector(grid, 0.01, derivs, set)),
    ]
}

#[test]
fn a_pair_at_rest_length_stays_where_it_is() {
    let rest = 0.05;
    let grid = pair(rest);
    let set = plain(rest, 2.0);
    for (name, path) in all_methods(&grid, &set) {
        assert!(path.len() >= 2, "{name}");
        for entry in &path {
            for (i, cell) in entry.2.iter().enumerate() {
                assert_eq!(xy(cell.pos), xy(grid[i].pos), "{name} at step {}", entry.0);
            }
        }
    }
}

#[test]
fn a_pair_relaxes_toward_its_rest_length() {
    let rest = 0.05;
    let set = plain(rest, 1.0);
    for start in [0.08, 0.03] {
        let grid = pair(start);
        for (name, path) in all_methods(&grid, &set) {
            let mut far = (start - rest).abs();
            for entry in &path {
                let now = (gap_of(&entry.2) - rest).abs();
                assert!(now <= far + 1e-15, "{name} from {start} at step {}", entry.0);
                far = now;
            }
            assert!(far < (start - rest).abs() * 0.2, "{name} from {start} ended {far} off");
        }
    }
}

#[test]
fn the_adaptive_method_follows_the_exponential_closest() {
    // each end is pulled with the force of the spring, so the gap closes at
    // twice the rate: gap(t) = rest + (start - rest) * exp(-2 t)
    let rest = 0.05;
    let start = 0.08;
    let set = plain(rest, 1.0);
    let grid = pair(start);
    let off = |path: &Path| {
        let last = path.last().unwrap();
        let exact = rest + (start - rest) * (-2.0 * last.1).exp();
        (gap_of(&last.2) - exact).abs()
    };
    let adaptive = off(&rk45(&grid, 1e-12, 1e-4, 0.01, derivs, &set).0);
    let simple = off(&euler(&grid, 0.01, derivs, &set));
    assert!(adaptive < 1e-9, "the adaptive method is {adaptive} off");
    assert!(adaptive < simple, "the adaptive method is {adaptive} off, euler {simple}");
    assert!(off(&rk(&grid, 0.01, derivs, &set)) < 1e-9);
}

#[test]
fn adaptive_steps_stay_within_their_bounds() {
    let set = plain(0.05, 1.0);
    let grid = pair(0.08);
    for (epsilon, dt_min, dt_max) in
        [(1e-9, 0.001, 0.1), (1e-14, 0.005, 0.01), (1e-3, 0.001, 0.05), (1e-9, 0.02, 0.04), (1e-9, 0.001, 0.004)]
    {
        let (path, tuned) = rk45(&grid, epsilon, dt_min, dt_max, derivs, &set);
        assert!(!tuned.is_empty());
        for dt in &tuned {
            assert!(dt_min <= *dt && *dt <= dt_max, "a step of {dt}");
        }
        for pair in path.windows(2) {
            assert!(pair[0].0 < pair[1].0);
            assert!(pair[0].1 < pair[1].1);
            let dt = pair[1].1 - pair[0].1;
            assert!(dt_min - 1e-12 <= dt && dt <= dt_max + 1e-12, "a step of {dt}");
        }
        assert_eq!((path[0].0, path[0].1), (0, 0.0));
        assert!(path.last().unwrap().1 >= 1.0);
    }
}

#[test]
fn a_rejected_step_leaves_no_entry() {
    let set = plain(0.05, 0.2);
    let grid = pair(0.3);
    // the first step of a hundredth is far too coarse for this tolerance
    let (path, tuned) = rk45(&grid, 1e-15, 1e-5, 0.1, derivs, &set);
    assert!(tuned.len() > path.len() - 1, "some step was tried and given up");
    let numbers: Vec<i32> = path.iter().map(|e| e.0).collect();
    let expected: Vec<i32> = (0..path.len() as i32).collect();
    assert_eq!(numbers, expected);
    for pair in path.windows(2) {
        assert!(pair[0].1 < pair[1].1);
    }
}

#[test]
fn a_pinned_cell_never_moves() {
    let rest = 0.05;
    let set = plain(rest, 1.0);
    let mut grid = pair(0.09);
    grid[1].fixed = true;
    let pinned = grid[1].pos;
    for (name, path) in all_methods(&grid, &set) {
        for entry in &path {
            assert_eq!(entry.2[1].pos, pinned, "{name} at step {}", entry.0);
            assert!(entry.2[1].fixed);
        }
        let last = path.last().unwrap();
        assert!(num(last.2[0].pos.x) > 0.25, "{name}: the free cell was pulled along");
    }
}

#[test]
fn a_network_of_pinned_cells_is_constant() {
    let set = plain(0.05, 0.5);
    let mut grid = square(0.08);
    for cell in grid.iter_mut() {
        cell.fixed = true;
    }
    for (name, path) in all_methods(&grid, &set) {
        for entry in &path {
            assert_eq!(format!("{:?}", entry.2), format!("{:?}", grid), "{name}");
        }
    }
}

#[test]
fn cells_at_one_place_give_a_finite_derivative() {
    let set = Settings::new();
    let mut grid = pair(0.0);
    let change = derivs(0.0, &mut grid, &set);
    assert_eq!(change, vec![0.0, 0.0, 0.0, 0.0]);
    let mut three = pair(0.0);
    let mut far = Cell::new(s(0.75), s(0.5), s(0.01)).unwrap();
    far.neighbor_close = vec![0];
    three[0].neighbor_close = vec![1, 2];
    three.push(far);
    let change = derivs(0.0, &mut three, &set);
    assert!(change.iter().all(|v| v.is_finite()));
    // the twin adds nothing: the first cell is pulled by the far one alone
    assert_eq!(change[0], (0.5 - 0.04) * 1.0);
    assert_eq!(change[1], 0.0);
    assert_eq!((change[2], change[3]), (0.0, 0.0));
}

#[test]
fn strain_is_the_displacement_since_the_start() {
    let shift = (0.125, -0.0625);
    let mut grid = square(0.05);
    for cell in grid.iter_mut() {
        let at = xy(cell.pos);
        cell.pos = pos((at.0 + shift.0, at.1 + shift.1));
    }
    let (mean, longest) = get_strain(&mut grid);
    for cell in &grid {
        let strain = xy(cell.strain.unwrap());
        assert!((strain.0 - shift.0).abs() < 1e-15);
        assert!((strain.1 - shift.1).abs() < 1e-15);
    }
    assert!((mean.0 - shift.0).abs() < 1e-15);
    assert!((mean.1 - shift.1).abs() < 1e-15);
    let length = (shift.0 * shift.0 + shift.1 * shift.1).sqrt();
    assert!((longest - length).abs() < 1e-15);
}

#[test]
fn a_square_at_rest_length_ends_where_it_started() {
    let rest = 0.05;
    let grid = square(rest);
    assert!(is_well_linked(&grid));
    let set = plain(rest, 1.0);
    for (name, path) in all_methods(&grid, &set) {
        assert_eq!((path[0].0, path[0].1), (0, 0.0), "{name}");
        let last = path.last().unwrap();
        assert!(last.1 >= 1.0, "{name} ended at {}", last.1);
        for (i, cell) in last.2.iter().enumerate() {
            let at = xy(cell.pos);
            let from = xy(grid[i].pos);
            assert!((at.0 - from.0).abs() <= 1e-9, "{name}");
            assert!((at.1 - from.1).abs() <= 1e-9, "{name}");
        }
    }
}

#[test]
fn a_run_of_no_duration_holds_the_start_alone() {
    let grid = pair(0.08);
    for del_t in [0.0, -1.0] {
        let set = plain(0.05, del_t);
        for (name, path) in all_methods(&grid, &set) {
            assert_eq!(path.len(), 1, "{name}");
            assert_eq!((path[0].0, path[0].1), (0, 0.0), "{name}");
            assert_eq!(format!("{:?}", path[0].2), format!("{:?}", grid), "{name}");
        }
    }
}

#[test]
fn a_run_of_no_cells_does_not_fail() {
    let set = plain(0.05, 0.05);
    for (name, path) in all_methods(&vec![], &set) {
        assert!(path.len() >= 2, "{name}");
        assert!(path.iter().all(|e| e.2.is_empty()), "{name}");
        assert!(path.last().unwrap().1 >= 0.05, "{name}");
    }
}

#[test]
fn the_multistep_method_numbers_its_first_step_five() {
    let set = plain(0.05, 0.065);
    let path = predictor_corrector(&pair(0.08), 0.01, derivs, &set);
    let numbers: Vec<i32> = path.iter().map(|e| e.0).collect();
    assert_eq!(numbers, vec![0, 1, 2, 3, 5, 6, 7, 8]);
    let short = predictor_corrector(&pair(0.08), 0.01, derivs, &plain(0.05, 0.015));
    let numbers: Vec<i32> = short.iter().map(|e| e.0).collect();
    assert_eq!(numbers, vec![0, 1, 2]);
}

#[test]
fn a_constrained_cell_is_pushed_while_let_go_then_pinned() {
    let mut set = plain(0.05, 1.5);
    set.extforce_x = s(0.05);
    let mut grid = pair(0.05);
    grid[0].force = ForceFunc::Constrained;
    let path = euler(&grid, 0.25, derivs, &set);
    // let go during the first time unit, pinned from the first evaluation after it
    let pins: Vec<bool> = path.iter().map(|e| e.2[0].fixed).collect();
    assert_eq!(pins, vec![false, false, false, false, false, true, true]);
    let xs: Vec<f64> = path.iter().map(|e| num(e.2[0].pos.x)).collect();
    assert!(xs[1] > xs[0]);
    assert_eq!(xs[5], xs[4]);
    assert_eq!(xs[6], xs[5]);
}

#[test]
fn stress_is_gathered_over_the_springs() {
    let rest = 0.05;
    let set = plain(rest, 1.0);
    // stretched: each cell is pulled toward the other
    let mut grid = pair(0.08);
    let (most, least, mean) = get_stress(&mut grid, 0.0, &set);
    let pull = 0.08 - rest;
    let expected = -0.5 * (pull * 0.08);
    for cell in &grid {
        let tensor = cell.tensor_stress.unwrap();
        assert!((num(tensor.a) - expected).abs() < 1e-15);
        assert_eq!(num(tensor.b), 0.0);
        assert!((num(cell.stress.unwrap()) - expected).abs() < 1e-15);
    }
    assert_eq!(most, 0.0);
    assert!((least - expected).abs() < 1e-15);
    assert!((mean - expected).abs() < 1e-15);
    // at rest length there is no stress at all
    let mut still = pair(rest);
    assert_eq!(get_stress(&mut still, 0.0, &set), (0.0, 0.0, 0.0));
}
