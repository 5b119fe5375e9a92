use game_of_life::coord::Coord;
use game_of_life::world::World;

/// Every live cell of a grid with the given dimensions, row by row.
fn live_cells(w: &World, xs: usize, ys: usize) -> Vec<(usize, usize)> {
    let mut v: Vec<(usize, usize)> = Vec::new();
    for y in 0..ys {
        for x in 0..xs {
            if w.cell_alive(x, y) {
                v.push((x, y));
            }
        }
    }
    v
}

/// Builds a world with exactly the given cells alive.
fn world_with(xs: usize, ys: usize, cells: &[(usize, usize)]) -> World {
    let mut w = World::new(xs, ys);
    for &(x, y) in cells {
        w.spawn(Coord::new(x, y));
    }
    w.update();
    w
}

/// One generation through the library's combined step.
fn advance(w: &mut World) {
    w.advance();
}

#[test]
fn neighbour_counts_on_full_grid() {
    let mut w = World::new(3, 3);
    for y in 0..3 {
        for x in 0..3 {
            w.spawn(Coord::new(x, y));
        }
    }
    w.update();

    assert_eq!(w.neighbours(&Coord::new(0, 0)), 3);
    assert_eq!(w.neighbours(&Coord::new(2, 0)), 3);
    assert_eq!(w.neighbours(&Coord::new(0, 2)), 3);
    assert_eq!(w.neighbours(&Coord::new(2, 2)), 3);
    assert_eq!(w.neighbours(&Coord::new(1, 0)), 5);
    assert_eq!(w.neighbours(&Coord::new(0, 1)), 5);
    assert_eq!(w.neighbours(&Coord::new(2, 1)), 5);
    assert_eq!(w.neighbours(&Coord::new(1, 2)), 5);
    assert_eq!(w.neighbours(&Coord::new(1, 1)), 8);
}

#[test]
fn dead_grid_stays_dead() {
    let mut w = world_with(4, 4, &[]);
    w.tick();
    w.update();
    assert_eq!(live_cells(&w, 4, 4), vec![]);
    advance(&mut w);
    assert_eq!(live_cells(&w, 4, 4), vec![]);
}

#[test]
fn block_still_life() {
    let block = vec![(1, 1), (2, 1), (1, 2), (2, 2)];
    let mut w = world_with(5, 5, &block);
    for _ in 0..4 {
        advance(&mut w);
        assert_eq!(live_cells(&w, 5, 5), block);
    }
}

#[test]
fn block_in_corner_is_still_life() {
    let block = vec![(0, 0), (1, 0), (0, 1), (1, 1)];
    let mut w = world_with(2, 2, &block);
    advance(&mut w);
    assert_eq!(live_cells(&w, 2, 2), block);
}

#[test]
fn blinker_oscillates() {
    let horizontal = vec![(1, 2), (2, 2), (3, 2)];
    let vertical = vec![(2, 1), (2, 2), (2, 3)];

    let mut w = world_with(5, 5, &horizontal);
    assert_eq!(live_cells(&w, 5, 5), horizontal);

    advance(&mut w);
    assert_eq!(live_cells(&w, 5, 5), vertical);

    advance(&mut w);
    assert_eq!(live_cells(&w, 5, 5), horizontal);
}

#[test]
fn duplicate_spawn_is_noop() {
    let mut w = World::new(3, 3);
    assert!(w.spawn(Coord::new(1, 1)));
    assert!(!w.spawn(Coord::new(1, 1)));
    assert!(w.spawn(Coord::new(2, 2)));
    assert!(!w.spawn(Coord::new(2, 2)));
    w.update();
    assert_eq!(live_cells(&w, 3, 3), vec![(1, 1), (2, 2)]);
}

#[test]
fn dead_cell_with_three_neighbours_is_born() {
    let mut w = world_with(3, 3, &[(0, 0), (1, 0), (0, 1)]);
    advance(&mut w);
    assert_eq!(live_cells(&w, 3, 3), vec![(0, 0), (1, 0), (0, 1), (1, 1)]);
}

#[test]
fn live_cell_with_one_neighbour_dies() {
    let mut w = world_with(4, 4, &[(0, 0), (1, 0)]);
    advance(&mut w);
    assert_eq!(live_cells(&w, 4, 4), vec![]);
}

#[test]
fn live_cell_with_four_neighbours_dies() {
    let plus = vec![(2, 1), (1, 2), (2, 2), (3, 2), (2, 3)];
    let mut w = world_with(5, 5, &plus);
    advance(&mut w);
    // The centre is overcrowded and dies; each arm keeps three neighbours
    // and survives; the four diagonal corners gain three neighbours and are
    // born: a ring remains.
    let ring = vec![
        (1, 1),
        (2, 1),
        (3, 1),
        (1, 2),
        (3, 2),
        (1, 3),
        (2, 3),
        (3, 3),
    ];
    assert_eq!(live_cells(&w, 5, 5), ring);
}

#[test]
fn lone_cell_on_single_cell_grid_dies() {
    let mut w = world_with(1, 1, &[(0, 0)]);
    assert_eq!(live_cells(&w, 1, 1), vec![(0, 0)]);
    advance(&mut w);
    assert_eq!(live_cells(&w, 1, 1), vec![]);
}

#[test]
fn try_spawn_rejects_out_of_bounds_coordinates() {
    let mut w = World::new(3, 3);
    assert_eq!(w.try_spawn(Coord::new(3, 0)), Err(game_of_life::world::OutOfBounds));
    assert_eq!(w.try_spawn(Coord::new(0, 3)), Err(game_of_life::world::OutOfBounds));
    assert_eq!(w.try_spawn(Coord::new(1, 1)), Ok(true));
    assert_eq!(w.try_spawn(Coord::new(1, 1)), Ok(false));
    w.update();
    assert_eq!(live_cells(&w, 3, 3), vec![(1, 1)]);
}

#[test]
fn contains_matches_the_grid_bounds() {
    let w = World::new(3, 2);
    assert!(w.contains(0, 0));
    assert!(w.contains(2, 1));
    assert!(!w.contains(3, 0));
    assert!(!w.contains(0, 2));
    let empty = World::new(0, 5);
    assert!(!empty.contains(0, 0));
}

#[test]
fn next_buffer_flags_are_tracked_per_cell() {
    let mut w = World::new(2, 2);
    let c = Coord::new(0, 1);
    let d = Coord::new(1, 0);

    assert!(!w.is_alive(&c));
    assert!(!w.is_checked(&c));

    w.spawn(c);
    assert!(w.is_alive(&c));
    assert!(!w.is_checked(&c));
    assert!(!w.is_alive(&d));

    w.set_checked(&c);
    assert!(w.is_alive(&c));
    assert!(w.is_checked(&c));

    w.set_alive(&d);
    assert!(w.is_alive(&d));
    assert!(!w.is_checked(&d));
}

#[test]
fn to_writer_renders_rows_with_live_markers() {
    let w = world_with(5, 5, &[(1, 2), (2, 2), (3, 2)]);
    let mut out: Vec<u8> = Vec::new();
    w.to_writer(&mut out);
    assert_eq!(out, b"     \n     \n 111 \n     \n     \n".to_vec());
}

#[test]
fn to_writer_appends_after_existing_bytes() {
    let w = world_with(2, 1, &[(0, 0)]);
    let mut out: Vec<u8> = b"x".to_vec();
    w.to_writer(&mut out);
    assert_eq!(out, b"x1 \n".to_vec());
}

#[test]
fn to_writer_on_empty_grid_writes_nothing() {
    let w = World::new(0, 0);
    let mut out: Vec<u8> = Vec::new();
    w.to_writer(&mut out);
    assert_eq!(out, Vec::<u8>::new());
}
