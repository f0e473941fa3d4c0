use falling_sand::emitter::Emitter;
use falling_sand::grid::{Cell, Grid};
use falling_sand::simulation::{frame_delay, RunState, Signal, Simulation};

const FULL: Cell = Cell { occupied: true, settled: false };

fn occupied_cells(sim: &Simulation) -> Vec<(usize, usize)> {
    let mut out = Vec::new();
    for (r, row) in sim.snapshot().iter().enumerate() {
        for (c, &b) in row.iter().enumerate() {
            if b {
                out.push((r, c));
            }
        }
    }
    out
}

fn count(sim: &Simulation) -> usize {
    occupied_cells(sim).len()
}

fn place(sim: &mut Simulation, cells: &[(usize, usize)]) {
    for &(r, c) in cells {
        assert!(sim.grid.set(r, c, FULL));
    }
}

fn tick(sim: &mut Simulation, coins: &Vec<Vec<bool>>) -> bool {
    sim.step_with(&vec![], false, coins)
}

#[test]
fn emitter_click_toggles() {
    let mut e = Emitter::new();
    assert!(!e.is_active());
    e.click(3, 4);
    assert_eq!(e.target, Some((3, 4)));
    e.click(7, 9);
    assert_eq!(e.target, None);
    e.moved(1, 1);
    assert_eq!(e.target, None);
    e.click(2, 2);
    e.moved(5, 6);
    assert_eq!(e.target, Some((5, 6)));
}

#[test]
fn emitter_scenario_five_by_five() {
    let mut sim = Simulation::new(5, 5);
    assert!(sim.step_with(&vec![Signal::Click(0, 2)], false, &vec![]));
    assert_eq!(occupied_cells(&sim), vec![(0, 2)]);
    // marks are cleared at the end of the tick
    assert_eq!(sim.grid.get(0, 2), Some(Cell { occupied: true, settled: false }));
    // the visit of (0, 2) moves its particle down; the emptied cell is not
    // visited again in the same scan
    assert!(tick(&mut sim, &vec![]));
    assert_eq!(occupied_cells(&sim), vec![(1, 2)]);
    assert!(tick(&mut sim, &vec![]));
    assert_eq!(occupied_cells(&sim), vec![(0, 2), (2, 2)]);
    assert!(tick(&mut sim, &vec![]));
    assert_eq!(occupied_cells(&sim), vec![(1, 2), (3, 2)]);
}

#[test]
fn ambiguous_fall_follows_the_drawn_side() {
    let mut left = Simulation::new(4, 3);
    place(&mut left, &[(0, 1), (1, 1)]);
    let coins_left = vec![vec![true, true, true]; 4];
    assert!(tick(&mut left, &coins_left));
    assert_eq!(occupied_cells(&left), vec![(1, 0), (2, 1)]);

    let mut right = Simulation::new(4, 3);
    place(&mut right, &[(0, 1), (1, 1)]);
    let coins_right = vec![vec![false, false, false]; 4];
    assert!(tick(&mut right, &coins_right));
    assert_eq!(occupied_cells(&right), vec![(1, 2), (2, 1)]);
}

#[test]
fn blocked_left_slides_right_and_blocked_right_slides_left() {
    let mut sim = Simulation::new(5, 3);
    place(&mut sim, &[(0, 1), (1, 0), (1, 1)]);
    sim.grid.tick_with(None, &vec![]);
    // (0,1) slides to (1,2); then (1,0) and (1,1) fall
    assert_eq!(occupied_cells(&sim), vec![(1, 2), (2, 0), (2, 1)]);

    let mut sim2 = Simulation::new(5, 3);
    place(&mut sim2, &[(0, 1), (1, 1), (1, 2)]);
    sim2.grid.tick_with(None, &vec![]);
    assert_eq!(occupied_cells(&sim2), vec![(1, 0), (2, 1), (2, 2)]);
}

#[test]
fn edge_column_has_no_outer_diagonal() {
    let mut sim = Simulation::new(5, 2);
    place(&mut sim, &[(0, 0), (1, 0)]);
    sim.grid.tick_with(None, &vec![vec![true, true]; 5]);
    // (0,0) cannot go left and the right rule needs an occupied left side
    assert_eq!(occupied_cells(&sim), vec![(0, 0), (2, 0)]);
}

#[test]
fn fully_blocked_particle_stays() {
    let mut sim = Simulation::new(4, 3);
    place(&mut sim, &[(1, 1), (2, 0), (2, 1), (2, 2)]);
    sim.grid.tick_with(None, &vec![]);
    assert_eq!(occupied_cells(&sim), vec![(1, 1), (2, 0), (2, 1), (2, 2)]);
}

#[test]
fn moved_particle_is_not_moved_again() {
    let mut sim = Simulation::new(6, 3);
    place(&mut sim, &[(0, 1)]);
    tick(&mut sim, &vec![]);
    assert_eq!(occupied_cells(&sim), vec![(1, 1)]);
    // a particle landing on a diagonal-only spot keeps it for the tick
    let mut sim2 = Simulation::new(6, 3);
    place(&mut sim2, &[(0, 1), (1, 1), (2, 1)]);
    tick(&mut sim2, &vec![vec![true; 3]; 6]);
    // (0,1) lands on (1,0) and, though (2,0) below it is then empty, stays
    assert_eq!(occupied_cells(&sim2), vec![(1, 0), (2, 0), (3, 1)]);
}

#[test]
fn bottom_two_rows_never_move() {
    let mut sim = Simulation::new(4, 3);
    place(&mut sim, &[(2, 1), (3, 0)]);
    for _ in 0..5 {
        tick(&mut sim, &vec![]);
    }
    assert_eq!(occupied_cells(&sim), vec![(2, 1), (3, 0)]);
}

#[test]
fn idle_tick_changes_nothing() {
    let mut sim = Simulation::new(6, 7);
    assert!(sim.step(&vec![], false));
    assert_eq!(count(&sim), 0);
    for r in 0..6 {
        for c in 0..7 {
            assert_eq!(sim.grid.get(r, c), Some(Cell { occupied: false, settled: false }));
        }
    }
}

#[test]
fn particle_count_grows_by_one_per_spawn() {
    let mut sim = Simulation::new(8, 5);
    place(&mut sim, &[(3, 1), (4, 4)]);
    sim.step(&vec![Signal::Click(0, 2)], false);
    assert_eq!(count(&sim), 3);
    sim.step(&vec![], false);
    // the target was occupied at the start of this tick
    assert_eq!(count(&sim), 3);
    sim.step(&vec![], false);
    assert_eq!(count(&sim), 4);
    sim.step(&vec![Signal::Click(9, 9)], false);
    assert_eq!(sim.emitter.target, None);
    let before = count(&sim);
    for _ in 0..10 {
        sim.step(&vec![], false);
        assert_eq!(count(&sim), before);
    }
}

#[test]
fn emitter_outside_grid_spawns_nothing() {
    let mut sim = Simulation::new(4, 4);
    sim.step(&vec![Signal::Click(10, 1)], false);
    assert_eq!(sim.emitter.target, Some((10, 1)));
    assert_eq!(count(&sim), 0);
}

#[test]
fn motion_relocates_active_emitter_before_the_pass() {
    let mut sim = Simulation::new(6, 6);
    sim.step_with(&vec![Signal::Moved(0, 1)], false, &vec![]);
    assert_eq!(sim.emitter.target, None);
    assert_eq!(count(&sim), 0);
    sim.step_with(&vec![Signal::Click(0, 1), Signal::Moved(0, 4)], false, &vec![]);
    assert_eq!(sim.emitter.target, Some((0, 4)));
    assert_eq!(occupied_cells(&sim), vec![(0, 4)]);
}

#[test]
fn resize_is_ignored() {
    let mut sim = Simulation::new(3, 3);
    assert!(sim.step_with(&vec![Signal::Resize(80, 24)], false, &vec![]));
    assert_eq!(sim.grid.rows(), 3);
    assert_eq!(sim.grid.columns(), 3);
    assert_eq!(sim.state, RunState::Running);
}

#[test]
fn quit_stops_without_a_tick() {
    let mut sim = Simulation::new(5, 5);
    place(&mut sim, &[(0, 0)]);
    let running = sim.step_with(&vec![Signal::Click(0, 3), Signal::Quit, Signal::Click(1, 1)], false, &vec![]);
    assert!(!running);
    assert_eq!(sim.state, RunState::Stopped);
    assert_eq!(sim.emitter.target, Some((0, 3)));
    assert_eq!(occupied_cells(&sim), vec![(0, 0)]);
    assert!(!sim.step(&vec![], false));
    assert_eq!(occupied_cells(&sim), vec![(0, 0)]);
}

#[test]
fn closed_input_counts_as_quit() {
    let mut sim = Simulation::new(5, 5);
    place(&mut sim, &[(0, 0)]);
    assert!(!sim.step(&vec![Signal::Click(1, 1)], true));
    assert_eq!(sim.state, RunState::Stopped);
    assert_eq!(occupied_cells(&sim), vec![(0, 0)]);
}

#[test]
fn frame_delay_sleeps_the_remainder() {
    assert_eq!(frame_delay(16_000, 4_000), Some(12_000));
    assert_eq!(frame_delay(16_000, 16_000), Some(0));
    assert_eq!(frame_delay(16_000, 20_000), None);
}

#[test]
fn grid_access_is_bounds_checked() {
    let mut g = Grid::new(2, 3);
    assert_eq!(g.rows(), 2);
    assert_eq!(g.columns(), 3);
    assert_eq!(g.get(2, 0), None);
    assert_eq!(g.get(0, 3), None);
    assert!(!g.set(5, 5, FULL));
    assert!(g.set(1, 2, FULL));
    assert_eq!(g.get(1, 2), Some(FULL));
    assert_eq!(g.get(1, 1), Some(Cell { occupied: false, settled: false }));
}

#[test]
fn snapshot_mirrors_occupancy() {
    let mut sim = Simulation::new(2, 3);
    place(&mut sim, &[(0, 2), (1, 0)]);
    assert_eq!(sim.snapshot(), vec![vec![false, false, true], vec![true, false, false]]);
}

#[test]
fn random_sides_split_evenly() {
    let mut left = 0;
    let trials = 2000;
    for _ in 0..trials {
        let mut sim = Simulation::new(3, 3);
        place(&mut sim, &[(0, 1), (1, 1)]);
        sim.step(&vec![], false);
        let cells = occupied_cells(&sim);
        assert_eq!(cells.len(), 2);
        if cells.contains(&(1, 0)) {
            left += 1;
        } else {
            assert!(cells.contains(&(1, 2)));
        }
    }
    assert!(left > trials * 2 / 5 && left < trials * 3 / 5, "left = {}", left);
}

#[test]
fn pile_forms_under_a_fixed_emitter() {
    let mut sim = Simulation::new(6, 9);
    sim.step(&vec![Signal::Click(0, 4)], false);
    for _ in 0..200 {
        sim.step(&vec![], false);
    }
    let snap = sim.snapshot();
    // the column under the emitter is filled and the pile is widest at its base
    assert!(snap[3][4]);
    let width = |r: usize| snap[r].iter().filter(|&&b| b).count();
    assert!(width(3) >= width(2));
    assert!(width(3) >= 3);
}

#[test]
fn particle_falling_into_the_target_takes_the_spawn() {
    let mut sim = Simulation::new(5, 5);
    place(&mut sim, &[(0, 2)]);
    // the target is empty at the start of the tick, but the particle above
    // reaches it before its visit
    sim.step_with(&vec![Signal::Click(1, 2)], false, &vec![]);
    assert_eq!(occupied_cells(&sim), vec![(1, 2)]);
    sim.step_with(&vec![], false, &vec![]);
    assert_eq!(occupied_cells(&sim), vec![(2, 2)]);
    sim.step_with(&vec![], false, &vec![]);
    assert_eq!(occupied_cells(&sim), vec![(1, 2), (3, 2)]);
}
