use game_of_life::Cell;
use game_of_life::Universe;

/// The coordinates of every `Alive` cell, row-major.
fn alive_coords(u: &Universe) -> Vec<(usize, usize)> {
    let w = u.width();
    let h = u.height();
    let cells = u.get_cells();
    let mut out = Vec::new();
    for r in 0..h {
        for c in 0..w {
            if cells[r * w + c] == Cell::Alive {
                out.push((r, c));
            }
        }
    }
    out
}

/// A w x h universe with every cell `Dead`.
fn empty_grid(w: usize, h: usize) -> Universe {
    let mut u = Universe::new();
    u.set_width(w);
    u.set_height(h);
    u
}

#[test]
fn seed_matches_parity_rule() {
    let u = Universe::new();
    assert_eq!(u.width(), 128);
    assert_eq!(u.height(), 128);
    let cells = u.get_cells();
    assert_eq!(cells.len(), 128 * 128);
    for i in 0..cells.len() {
        let expected = if i % 2 == 0 || i % 7 == 0 {
            Cell::Alive
        } else {
            Cell::Dead
        };
        assert_eq!(cells[i], expected, "seed mismatch at index {}", i);
    }
}

#[test]
fn default_matches_new() {
    let a = Universe::new();
    let b = Universe::default();
    assert_eq!(a.width(), b.width());
    assert_eq!(a.height(), b.height());
    assert_eq!(a.get_cells(), b.get_cells());
}

#[test]
fn cells_view_matches_get_cells() {
    let u = Universe::new();
    assert_eq!(u.cells().as_slice(), u.get_cells());
}

#[test]
fn far_corner_is_diagonal_neighbor_of_origin() {
    // The origin's north-west neighbor wraps to (height - 1, width - 1).
    // With that corner and two more neighbors of (0, 0) alive, the origin
    // has exactly three live neighbors and is born.
    let mut u = empty_grid(4, 4);
    u.set_cells(&[(3, 3), (0, 1), (1, 0)]);
    u.tick();
    assert_eq!(alive_coords(&u), vec![(0, 0)]);

    // Without the far corner the origin has only two live neighbors and
    // stays dead.
    let mut v = empty_grid(4, 4);
    v.set_cells(&[(0, 1), (1, 0)]);
    v.tick();
    assert_eq!(alive_coords(&v), vec![]);
}

#[test]
fn blinker_oscillates_with_period_two() {
    let mut u = empty_grid(5, 5);
    u.set_cells(&[(2, 1), (2, 2), (2, 3)]);
    u.tick();
    assert_eq!(alive_coords(&u), vec![(1, 2), (2, 2), (3, 2)]);
    u.tick();
    assert_eq!(alive_coords(&u), vec![(2, 1), (2, 2), (2, 3)]);
}

#[test]
fn all_dead_grid_stays_dead() {
    let mut u = empty_grid(6, 5);
    u.tick();
    assert_eq!(u.get_cells().len(), 30);
    assert!(u.get_cells().iter().all(|&c| c == Cell::Dead));
}

#[test]
fn tick_reads_frozen_snapshot() {
    // A vertical blinker: updating cells in place, row by row, would kill
    // the whole pattern, because the top cell's death would be seen while
    // counting the middle cell's neighbors. The buffered step turns it
    // into a horizontal blinker instead.
    let mut u = empty_grid(5, 5);
    u.set_cells(&[(0, 1), (1, 1), (2, 1)]);
    u.tick();
    assert_eq!(alive_coords(&u), vec![(1, 0), (1, 1), (1, 2)]);
}

#[test]
fn one_by_one_grid_is_its_own_neighborhood() {
    // In a 1 x 1 grid all eight neighbor coordinates wrap back to the
    // single cell, so a live cell sees eight live neighbors and dies.
    let mut u = empty_grid(1, 1);
    u.set_cells(&[(0, 0)]);
    u.tick();
    assert_eq!(alive_coords(&u), vec![]);
}

#[test]
fn set_width_resets_to_dead() {
    let mut u = Universe::new();
    assert!(u.get_cells().iter().any(|&c| c == Cell::Alive));
    u.set_width(10);
    assert_eq!(u.width(), 10);
    assert_eq!(u.height(), 128);
    assert_eq!(u.get_cells().len(), 10 * 128);
    assert!(u.get_cells().iter().all(|&c| c == Cell::Dead));
}

#[test]
fn set_height_resets_to_dead() {
    let mut u = Universe::new();
    u.set_cells(&[(0, 0), (5, 5)]);
    u.set_height(7);
    assert_eq!(u.width(), 128);
    assert_eq!(u.height(), 7);
    assert_eq!(u.get_cells().len(), 128 * 7);
    assert!(u.get_cells().iter().all(|&c| c == Cell::Dead));
}

#[test]
fn toggle_cell_flips_in_place() {
    let mut u = empty_grid(3, 3);
    u.toggle_cell(1, 2);
    assert_eq!(alive_coords(&u), vec![(1, 2)]);
    u.toggle_cell(1, 2);
    assert_eq!(alive_coords(&u), vec![]);
}

#[test]
fn set_cells_marks_only_named_cells() {
    let mut u = empty_grid(4, 4);
    u.toggle_cell(3, 0);
    u.set_cells(&[(0, 1), (2, 3), (3, 0)]);
    assert_eq!(alive_coords(&u), vec![(0, 1), (2, 3), (3, 0)]);
}
