use cellular_automaton::brain;
use cellular_automaton::cell::BasicCell;
use cellular_automaton::common::Dimensions;
use cellular_automaton::life;
use cellular_automaton::world::World;
use cellular_automaton::world::count_on_cells;

fn life_world(width: usize, height: usize, alive: &[(usize, usize)]) -> World<life::Cell> {
    let mut w: World<life::Cell> = World::blank(Dimensions::new(width, height));
    for &(x, y) in alive {
        assert!(w.set_cell(x, y, life::Cell::Alive));
    }
    w
}

#[test]
fn dimensions_index_of_in_bounds() {
    let d = Dimensions::new(4, 3);
    assert_eq!(d.area(), 12);
    assert_eq!(d.index_of(0, 0), Some(0));
    assert_eq!(d.index_of(3, 0), Some(3));
    assert_eq!(d.index_of(0, 1), Some(4));
    assert_eq!(d.index_of(2, 2), Some(10));
}

#[test]
fn dimensions_index_of_out_of_bounds() {
    let d = Dimensions::new(4, 3);
    assert_eq!(d.index_of(4, 0), None);
    assert_eq!(d.index_of(0, 3), None);
    assert_eq!(d.index_of(17, 29), None);
}

#[test]
fn blank_world_is_all_default() {
    let w: World<life::Cell> = World::blank(Dimensions::new(5, 4));
    assert_eq!(w.cells().len(), 20);
    assert!(w.cells().iter().all(|c| *c == life::Cell::Dead));
    assert!(w.delta().is_empty());

    let b: World<brain::Cell> = World::blank(Dimensions::new(3, 7));
    assert_eq!(b.cells().len(), 21);
    assert!(b.cells().iter().all(|c| *c == brain::Cell::Off));
    assert!(b.delta().is_empty());
}

#[test]
fn blank_life_changes_are_empty() {
    let mut w: World<life::Cell> = World::blank(Dimensions::new(4, 4));
    assert!(w.changes().is_empty());
    w.tick();
    assert!(w.delta().is_empty());
    assert!(w.cells().iter().all(|c| *c == life::Cell::Dead));
}

#[test]
fn moore_neighbor_counts_in_three_by_three() {
    let w: World<life::Cell> = World::blank(Dimensions::new(3, 3));
    // Corners.
    assert_eq!(w.moore_neighbors(0, 0).len(), 3);
    assert_eq!(w.moore_neighbors(2, 0).len(), 3);
    assert_eq!(w.moore_neighbors(0, 2).len(), 3);
    assert_eq!(w.moore_neighbors(2, 2).len(), 3);
    // Non-corner edges.
    assert_eq!(w.moore_neighbors(1, 0).len(), 5);
    assert_eq!(w.moore_neighbors(0, 1).len(), 5);
    assert_eq!(w.moore_neighbors(2, 1).len(), 5);
    assert_eq!(w.moore_neighbors(1, 2).len(), 5);
    // Interior.
    assert_eq!(w.moore_neighbors(1, 1).len(), 8);
}

#[test]
fn moore_neighbor_counts_in_two_by_two() {
    let w: World<life::Cell> = World::blank(Dimensions::new(2, 2));
    assert_eq!(w.moore_neighbors(0, 0).len(), 3);
    assert_eq!(w.moore_neighbors(1, 0).len(), 3);
    assert_eq!(w.moore_neighbors(0, 1).len(), 3);
    assert_eq!(w.moore_neighbors(1, 1).len(), 3);
}

#[test]
fn moore_neighbors_come_column_major() {
    // 3x3 grid with every cell distinct through set_cell, read back around
    // the center: left column top to bottom, then above and below the
    // center, then the right column top to bottom.
    let mut w: World<brain::Cell> = World::blank(Dimensions::new(3, 3));
    assert!(w.set_cell(0, 0, brain::Cell::On));
    assert!(w.set_cell(1, 0, brain::Cell::Dying));
    assert!(w.set_cell(2, 0, brain::Cell::On));
    assert!(w.set_cell(0, 1, brain::Cell::Off));
    assert!(w.set_cell(2, 1, brain::Cell::Dying));
    assert!(w.set_cell(0, 2, brain::Cell::On));
    assert!(w.set_cell(1, 2, brain::Cell::Off));
    assert!(w.set_cell(2, 2, brain::Cell::On));
    assert_eq!(
        w.moore_neighbors(1, 1),
        vec![
            brain::Cell::On,
            brain::Cell::Off,
            brain::Cell::On,
            brain::Cell::Dying,
            brain::Cell::Off,
            brain::Cell::On,
            brain::Cell::Dying,
            brain::Cell::On,
        ]
    );
}

#[test]
fn changes_is_pure() {
    let w = life_world(3, 3, &[(0, 1), (1, 1), (2, 1)]);
    assert_eq!(w.changes(), w.changes());

    let mut b: World<brain::Cell> = World::blank(Dimensions::new(3, 3));
    assert!(b.set_cell(1, 1, brain::Cell::On));
    assert!(b.set_cell(1, 2, brain::Cell::Dying));
    assert_eq!(b.changes(), b.changes());
}

#[test]
fn tick_delta_is_the_pre_tick_change_set() {
    let mut w = life_world(3, 3, &[(0, 1), (1, 1), (2, 1)]);
    let expected = w.changes();
    w.tick();
    assert_eq!(*w.delta(), expected);

    let mut b: World<brain::Cell> = World::blank(Dimensions::new(4, 2));
    assert!(b.set_cell(1, 0, brain::Cell::On));
    assert!(b.set_cell(2, 0, brain::Cell::On));
    let expected = b.changes();
    b.tick();
    assert_eq!(*b.delta(), expected);
}

#[test]
fn tick_overwrites_the_delta() {
    let mut b: World<brain::Cell> = World::blank(Dimensions::new(3, 1));
    assert!(b.set_cell(1, 0, brain::Cell::On));
    b.tick();
    assert_eq!(*b.delta(), vec![((1, 0), brain::Cell::Dying)]);
    b.tick();
    assert_eq!(*b.delta(), vec![((1, 0), brain::Cell::Off)]);
    b.tick();
    assert!(b.delta().is_empty());
}

#[test]
fn single_live_corner_has_three_dead_neighbors_and_no_changes() {
    let mut w = life_world(3, 3, &[(0, 0)]);
    let nbrs = w.moore_neighbors(0, 0);
    assert_eq!(nbrs.len(), 3);
    assert!(nbrs.iter().all(|c| *c == life::Cell::Dead));
    assert!(w.changes().is_empty());
    w.tick();
    assert!(w.delta().is_empty());
    assert_eq!(w.get_cell(0, 0), Some(life::Cell::Alive));
}

#[test]
fn get_and_set_cell_check_bounds() {
    let mut w: World<life::Cell> = World::blank(Dimensions::new(2, 2));
    assert_eq!(w.get_cell(2, 0), None);
    assert_eq!(w.get_cell(0, 2), None);
    assert!(!w.set_cell(2, 0, life::Cell::Alive));
    assert!(w.set_cell(1, 1, life::Cell::Alive));
    assert_eq!(w.get_cell(1, 1), Some(life::Cell::Alive));
    assert_eq!(w.get_cell(0, 0), Some(life::Cell::Dead));
}

#[test]
fn next_returns_the_grid_tick_would_leave() {
    let mut w = life_world(3, 3, &[(0, 1), (1, 1), (2, 1)]);
    let stepped = w.next();
    w.tick();
    assert_eq!(*w.cells(), stepped);
}

#[test]
fn random_world_matches_dimensions() {
    let d = Dimensions::new(6, 5);
    let mut w: World<brain::Cell> = World::random(d);
    assert_eq!(w.dimensions(), d);
    assert_eq!(w.cells().len(), 30);
    assert!(w.delta().is_empty());
    assert!(w.cells().iter().all(|c| *c != brain::Cell::Dying));
    w.refresh_random();
    assert_eq!(w.dimensions(), d);
    assert_eq!(w.cells().len(), 30);
}

#[test]
fn count_on_cells_counts_live_cells() {
    let cells = vec![
        brain::Cell::On,
        brain::Cell::Off,
        brain::Cell::Dying,
        brain::Cell::On,
        brain::Cell::On,
    ];
    assert_eq!(count_on_cells(&cells), 3);
    let none: Vec<brain::Cell> = Vec::new();
    assert_eq!(count_on_cells(&none), 0);
}

#[test]
fn world_new_takes_ownership_of_cells() {
    let cells = vec![life::Cell::Alive, life::Cell::Dead, life::Cell::Dead, life::Cell::Alive];
    let w: World<life::Cell> = World::new(cells.clone(), Dimensions::new(2, 2));
    assert_eq!(*w.cells(), cells);
    assert!(w.delta().is_empty());
    assert_eq!(w.dimensions(), Dimensions::new(2, 2));
}

#[test]
fn default_cells_are_the_off_states() {
    assert_eq!(life::Cell::default_cell(), life::Cell::Dead);
    assert_eq!(brain::Cell::default_cell(), brain::Cell::Off);
}
