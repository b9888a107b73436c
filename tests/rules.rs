use conway_life::grid::{count_live_neighbors, Cell, Grid};
use conway_life::life::{next_state, step, update_game};

fn grid_with(width: usize, height: usize, alive: &[(usize, usize)]) -> Grid {
    let mut g = Grid::new(width, height);
    for &(x, y) in alive {
        g.set(x, y, Cell::Alive);
    }
    g
}

fn alive_cells(g: &Grid) -> Vec<(usize, usize)> {
    let mut out = Vec::new();
    for y in 0..g.height {
        for x in 0..g.width {
            if g.get(x, y) == Cell::Alive {
                out.push((x, y));
            }
        }
    }
    out
}

#[test]
fn dead_cell_with_three_neighbors_is_born() {
    let mut g = grid_with(5, 5, &[(1, 1), (2, 1), (3, 1)]);
    assert_eq!(count_live_neighbors(&g, 2, 2), 3);
    update_game(&mut g);
    assert_eq!(g.get(2, 2), Cell::Alive);
}

#[test]
fn dead_cell_with_other_counts_stays_dead() {
    for n in 0u8..=8 {
        let expected = if n == 3 { Cell::Alive } else { Cell::Dead };
        assert_eq!(next_state(Cell::Dead, n), expected);
    }
}

#[test]
fn alive_cell_survives_only_with_two_or_three() {
    for n in 0u8..=8 {
        let expected = if n == 2 || n == 3 { Cell::Alive } else { Cell::Dead };
        assert_eq!(next_state(Cell::Alive, n), expected);
    }
}

#[test]
fn lonely_and_crowded_cells_die() {
    // (2, 2) alone dies; (1, 1) has four neighbours and dies.
    let mut g = grid_with(7, 7, &[(2, 2)]);
    update_game(&mut g);
    assert_eq!(g.get(2, 2), Cell::Dead);

    let mut g = grid_with(7, 7, &[(1, 1), (0, 0), (2, 0), (0, 2), (2, 2)]);
    assert_eq!(count_live_neighbors(&g, 1, 1), 4);
    update_game(&mut g);
    assert_eq!(g.get(1, 1), Cell::Dead);
}

#[test]
fn corner_counts_opposite_corner() {
    let g = grid_with(6, 4, &[(5, 3)]);
    assert_eq!(count_live_neighbors(&g, 0, 0), 1);
    let g = grid_with(6, 4, &[(5, 0), (0, 3), (1, 1)]);
    assert_eq!(count_live_neighbors(&g, 0, 0), 3);
    let g = grid_with(6, 4, &[(2, 2)]);
    assert_eq!(count_live_neighbors(&g, 0, 0), 0);
}

#[test]
fn full_neighbourhood_counts_eight() {
    let mut all = Vec::new();
    for y in 0..5 {
        for x in 0..5 {
            all.push((x, y));
        }
    }
    let g = grid_with(5, 5, &all);
    assert_eq!(count_live_neighbors(&g, 0, 0), 8);
    assert_eq!(count_live_neighbors(&g, 4, 4), 8);
}

#[test]
fn step_is_deterministic() {
    let g = grid_with(8, 6, &[(0, 0), (1, 0), (2, 1), (7, 5), (3, 3), (4, 3), (5, 3)]);
    let a = step(&g);
    let b = step(&g);
    assert_eq!(a.cells, b.cells);
    let mut c = grid_with(8, 6, &[(0, 0), (1, 0), (2, 1), (7, 5), (3, 3), (4, 3), (5, 3)]);
    update_game(&mut c);
    assert_eq!(a.cells, c.cells);
}

#[test]
fn three_by_three_updates_synchronously() {
    // On a 3 x 3 torus every cell neighbours all eight others.
    let g = grid_with(3, 3, &[(0, 0), (1, 0), (0, 1)]);
    let next = step(&g);
    assert_eq!(alive_cells(&g), vec![(0, 0), (1, 0), (0, 1)]);
    assert_eq!(next.cells, vec![Cell::Alive; 9]);
    let after = step(&next);
    assert_eq!(after.cells, vec![Cell::Dead; 9]);
}

#[test]
fn block_is_stable() {
    let g = grid_with(6, 6, &[(2, 2), (3, 2), (2, 3), (3, 3)]);
    let once = step(&g);
    assert_eq!(once.cells, g.cells);
    let twice = step(&once);
    assert_eq!(twice.cells, g.cells);
}

#[test]
fn blinker_has_period_two() {
    let g = grid_with(5, 5, &[(1, 2), (2, 2), (3, 2)]);
    let once = step(&g);
    assert_eq!(alive_cells(&once), vec![(2, 1), (2, 2), (2, 3)]);
    assert_ne!(once.cells, g.cells);
    let twice = step(&once);
    assert_eq!(twice.cells, g.cells);
}

#[test]
fn blinker_wraps_across_the_edge() {
    let g = grid_with(5, 5, &[(4, 0), (0, 0), (1, 0)]);
    let once = step(&g);
    assert_eq!(alive_cells(&once), vec![(0, 0), (0, 1), (0, 4)]);
    assert_eq!(step(&once).cells, g.cells);
}

#[test]
fn from_cells_checks_dimensions() {
    assert!(Grid::from_cells(2, 2, vec![Cell::Dead; 4]).is_some());
    assert!(Grid::from_cells(2, 2, vec![Cell::Dead; 3]).is_none());
    assert!(Grid::from_cells(0, 2, vec![]).is_none());
    assert!(Grid::from_cells(3, 0, vec![]).is_none());
    let g = Grid::from_cells(2, 1, vec![Cell::Dead, Cell::Alive]).unwrap();
    assert_eq!(g.get(1, 0), Cell::Alive);
    assert_eq!(g.get(0, 0), Cell::Dead);
}

#[test]
fn block_across_the_corner_is_stable() {
    let g = grid_with(6, 6, &[(5, 5), (0, 5), (5, 0), (0, 0)]);
    let once = step(&g);
    assert_eq!(once.cells, g.cells);
    assert_eq!(step(&once).cells, g.cells);
}

#[test]
fn single_cell_grid_counts_itself() {
    let mut g = grid_with(1, 1, &[(0, 0)]);
    assert_eq!(count_live_neighbors(&g, 0, 0), 8);
    update_game(&mut g);
    assert_eq!(g.get(0, 0), Cell::Dead);
}

#[test]
fn set_changes_one_cell() {
    let mut g = Grid::new(3, 2);
    g.set(2, 1, Cell::Alive);
    assert_eq!(g.cells[5], Cell::Alive);
    assert_eq!(alive_cells(&g), vec![(2, 1)]);
}
