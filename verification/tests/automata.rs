use cellular_automaton::brain;
use cellular_automaton::cell::BasicCell;
use cellular_automaton::common::Dimensions;
use cellular_automaton::life;
use cellular_automaton::world::World;

#[test]
fn life_transition_rule() {
    // A dead cell with exactly two live neighbors is resurrected.
    assert_eq!(life::Cell::Dead.transition(2), life::Cell::Alive);
    // Every other dead cell stays dead.
    assert_eq!(life::Cell::Dead.transition(0), life::Cell::Dead);
    assert_eq!(life::Cell::Dead.transition(1), life::Cell::Dead);
    assert_eq!(life::Cell::Dead.transition(3), life::Cell::Dead);
    assert_eq!(life::Cell::Dead.transition(8), life::Cell::Dead);
    // Live cells keep their state.
    assert_eq!(life::Cell::Alive.transition(0), life::Cell::Alive);
    assert_eq!(life::Cell::Alive.transition(2), life::Cell::Alive);
    assert_eq!(life::Cell::Alive.transition(8), life::Cell::Alive);
}

#[test]
fn brain_transition_rule() {
    // An off cell with exactly two on neighbors turns on.
    assert_eq!(brain::Cell::Off.transition(2), brain::Cell::On);
    assert_eq!(brain::Cell::Off.transition(0), brain::Cell::Off);
    assert_eq!(brain::Cell::Off.transition(1), brain::Cell::Off);
    assert_eq!(brain::Cell::Off.transition(3), brain::Cell::Off);
    // On cells always start dying; dying cells always turn off.
    assert_eq!(brain::Cell::On.transition(0), brain::Cell::Dying);
    assert_eq!(brain::Cell::On.transition(2), brain::Cell::Dying);
    assert_eq!(brain::Cell::Dying.transition(0), brain::Cell::Off);
    assert_eq!(brain::Cell::Dying.transition(2), brain::Cell::Off);
}

#[test]
fn brain_cell_cycles_in_three_steps() {
    let mut c = brain::Cell::On;
    c.next();
    assert_eq!(c, brain::Cell::Dying);
    c.next();
    assert_eq!(c, brain::Cell::Off);
    c.next();
    assert_eq!(c, brain::Cell::On);
}

#[test]
fn lone_on_cell_dies_out_under_the_brain_rule() {
    // A lone on cell with no on neighbors walks on -> dying -> off over
    // world ticks and, lacking two on neighbors, is never reborn.
    let mut w: World<brain::Cell> = World::blank(Dimensions::new(3, 3));
    assert!(w.set_cell(1, 1, brain::Cell::On));
    w.tick();
    assert_eq!(w.get_cell(1, 1), Some(brain::Cell::Dying));
    w.tick();
    assert_eq!(w.get_cell(1, 1), Some(brain::Cell::Off));
    w.tick();
    assert_eq!(w.get_cell(1, 1), Some(brain::Cell::Off));
    assert!(w.delta().is_empty());
}

#[test]
fn shoot_kill_resurrect() {
    let mut c = brain::Cell::Off;
    c.resurrect();
    assert_eq!(c, brain::Cell::On);
    c.shoot();
    assert_eq!(c, brain::Cell::Dying);
    c.kill();
    assert_eq!(c, brain::Cell::Off);
}

#[test]
fn random_cells_cover_the_grid_and_are_never_dying() {
    let d = Dimensions::new(20, 10);
    let cells = brain::random_cells(d);
    assert_eq!(cells.len(), 200);
    assert!(cells.iter().all(|c| *c != brain::Cell::Dying));
}

#[test]
fn horizontal_blinker_changes_by_hand_count() {
    // 3x3 grid, cells at (0,1), (1,1), (2,1) alive. By hand, the live
    // neighbor counts of the dead cells are: corners 2, (1,0) and (1,2) 3.
    // Under the rule "a dead cell with exactly two live neighbors is
    // resurrected; everything else keeps its state", the change set is
    // exactly the four corners turning alive, row-major.
    let mut w: World<life::Cell> = World::blank(Dimensions::new(3, 3));
    assert!(w.set_cell(0, 1, life::Cell::Alive));
    assert!(w.set_cell(1, 1, life::Cell::Alive));
    assert!(w.set_cell(2, 1, life::Cell::Alive));
    let changes = w.changes();
    assert_eq!(
        changes,
        vec![
            ((0, 0), life::Cell::Alive),
            ((2, 0), life::Cell::Alive),
            ((0, 2), life::Cell::Alive),
            ((2, 2), life::Cell::Alive),
        ]
    );
    w.tick();
    assert_eq!(*w.delta(), changes);
    // The row itself keeps its state; the middle edge cells stay dead.
    assert_eq!(w.get_cell(0, 1), Some(life::Cell::Alive));
    assert_eq!(w.get_cell(1, 1), Some(life::Cell::Alive));
    assert_eq!(w.get_cell(2, 1), Some(life::Cell::Alive));
    assert_eq!(w.get_cell(1, 0), Some(life::Cell::Dead));
    assert_eq!(w.get_cell(1, 2), Some(life::Cell::Dead));
    assert_eq!(w.get_cell(0, 0), Some(life::Cell::Alive));
}
