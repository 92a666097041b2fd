use pygamer_core::life::{Cell, Universe, UniverseError};

/// Builds a universe with the given live cells on an otherwise dead grid.
fn universe_with(width: u32, height: u32, live: &[(u32, u32)]) -> Universe {
    let area: usize = (width as usize) * (height as usize);
    let mut cells: Vec<Cell> = vec![Cell::Dead; area];
    for &(row, col) in live {
        cells[(row * width + col) as usize] = Cell::Alive;
    }
    let next: Vec<Cell> = vec![Cell::Dead; area];
    match Universe::new(width, height, cells, next) {
        Ok(u) => u,
        Err(_) => panic!("buffers were sized to the grid"),
    }
}

/// The set of live cells, for comparing whole generations.
fn live_cells(u: &Universe, width: u32, height: u32) -> Vec<(u32, u32)> {
    let mut live: Vec<(u32, u32)> = Vec::new();
    for row in 0..height {
        for col in 0..width {
            if u.get(row, col) == Cell::Alive {
                live.push((row, col));
            }
        }
    }
    live
}

#[test]
fn new_rejects_short_cells_buffer() {
    let cells: Vec<Cell> = vec![Cell::Dead; 8];
    let next: Vec<Cell> = vec![Cell::Dead; 9];
    match Universe::new(3, 3, cells, next) {
        Ok(_) => panic!("a short cells buffer must be rejected"),
        Err(e) => assert_eq!(e, UniverseError::InvalidBufferSize),
    }
}

#[test]
fn new_rejects_long_scratch_buffer() {
    let cells: Vec<Cell> = vec![Cell::Dead; 9];
    let next: Vec<Cell> = vec![Cell::Dead; 10];
    match Universe::new(3, 3, cells, next) {
        Ok(_) => panic!("a long scratch buffer must be rejected"),
        Err(e) => assert_eq!(e, UniverseError::InvalidBufferSize),
    }
}

#[test]
fn new_accepts_matching_buffers() {
    let cells: Vec<Cell> = vec![Cell::Dead; 12];
    let next: Vec<Cell> = vec![Cell::Dead; 12];
    assert!(Universe::new(4, 3, cells, next).is_ok());
}

#[test]
fn blinker_oscillates_with_period_two() {
    // A horizontal triple in the middle of a grid wide enough that the
    // wrapped edges stay out of its way.
    let mut u = universe_with(5, 5, &[(2, 1), (2, 2), (2, 3)]);
    u.tick();
    assert_eq!(live_cells(&u, 5, 5), vec![(1, 2), (2, 2), (3, 2)]);
    u.tick();
    assert_eq!(live_cells(&u, 5, 5), vec![(2, 1), (2, 2), (2, 3)]);
}

#[test]
fn full_column_fills_a_three_wide_torus() {
    // On a torus three cells wide, a full column is adjacent to both other
    // columns at once, so every dead cell sees three live neighbours and the
    // whole grid lights up. On a bounded grid the column would blink instead:
    // only the wraparound explains this outcome.
    let mut u = universe_with(3, 3, &[(0, 0), (1, 0), (2, 0)]);
    u.tick();
    let all: Vec<(u32, u32)> = (0..3)
        .flat_map(|row: u32| (0..3).map(move |col: u32| (row, col)))
        .collect();
    assert_eq!(live_cells(&u, 3, 3), all);
}

#[test]
fn row_triple_on_a_three_wide_torus_fills_the_grid() {
    // On a torus only three cells wide, the columns of a full row are
    // adjacent to every column, so a horizontal triple does not blink the
    // way it does on a wider grid: every dead cell sees exactly three live
    // neighbours and is born, every live cell keeps its two row-mates. One
    // generation later the crowded grid starves entirely.
    let mut u = universe_with(3, 3, &[(1, 0), (1, 1), (1, 2)]);
    u.tick();
    let all: Vec<(u32, u32)> = (0..3)
        .flat_map(|row: u32| (0..3).map(move |col: u32| (row, col)))
        .collect();
    assert_eq!(live_cells(&u, 3, 3), all);
    u.tick();
    assert_eq!(live_cells(&u, 3, 3), Vec::new());
}

#[test]
fn lone_corner_cell_dies() {
    let mut u = universe_with(3, 3, &[(0, 0)]);
    u.tick();
    assert_eq!(live_cells(&u, 3, 3), Vec::new());
}

#[test]
fn block_survives_many_generations() {
    let block: Vec<(u32, u32)> = vec![(1, 1), (1, 2), (2, 1), (2, 2)];
    let mut u = universe_with(4, 4, &block);
    for _ in 0..10 {
        u.tick();
        assert_eq!(live_cells(&u, 4, 4), block);
    }
    let mut wide = universe_with(7, 5, &block);
    for _ in 0..10 {
        wide.tick();
        assert_eq!(live_cells(&wide, 7, 5), block);
    }
}

#[test]
fn iter_twice_yields_identical_sequences() {
    let u = universe_with(4, 3, &[(0, 1), (1, 2), (2, 3)]);
    let first = u.iter();
    let second = u.iter();
    assert_eq!(first, second);
}

#[test]
fn iter_is_row_major_over_the_current_generation() {
    let u = universe_with(2, 2, &[(1, 0)]);
    assert_eq!(
        u.iter(),
        vec![
            (0, 0, Cell::Dead),
            (0, 1, Cell::Dead),
            (1, 0, Cell::Alive),
            (1, 1, Cell::Dead),
        ]
    );
}

#[test]
fn iter_follows_the_tick() {
    let mut u = universe_with(5, 5, &[(2, 1), (2, 2), (2, 3)]);
    u.tick();
    let shown = u.iter();
    assert_eq!(shown.len(), 25);
    for &(row, col, cell) in &shown {
        let expected = if col == 2 && (1..=3).contains(&row) {
            Cell::Alive
        } else {
            Cell::Dead
        };
        assert_eq!(cell, expected, "cell at ({row}, {col})");
    }
}
