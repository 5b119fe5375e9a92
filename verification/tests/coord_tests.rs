use game_of_life::cell::Cell;
use game_of_life::coord::Coord;
use game_of_life::coord::Direction;

#[test]
fn coord_steps_follow_the_compass() {
    let c = Coord::new(2, 2);
    assert_eq!(c.north(), 1);
    assert_eq!(c.south(), 3);
    assert_eq!(c.east(), 3);
    assert_eq!(c.west(), 1);

    let n = c.coord(Direction::N);
    assert_eq!((n.x, n.y), (2, 1));
    let s = c.coord(Direction::S);
    assert_eq!((s.x, s.y), (2, 3));
    let e = c.coord(Direction::E);
    assert_eq!((e.x, e.y), (3, 2));
    let w = c.coord(Direction::W);
    assert_eq!((w.x, w.y), (1, 2));
    let ne = c.coord(Direction::NE);
    assert_eq!((ne.x, ne.y), (3, 1));
    let nw = c.coord(Direction::NW);
    assert_eq!((nw.x, nw.y), (1, 1));
    let se = c.coord(Direction::SE);
    assert_eq!((se.x, se.y), (3, 3));
    let sw = c.coord(Direction::SW);
    assert_eq!((sw.x, sw.y), (1, 3));
}

#[test]
fn cell_flags_are_independent() {
    let mut c = Cell::new();
    assert!(!c.is_alive());
    assert!(!c.is_checked());

    c.set_alive();
    assert!(c.is_alive());
    assert!(!c.is_checked());

    let mut d = Cell::new();
    d.set_checked();
    assert!(!d.is_alive());
    assert!(d.is_checked());

    d.set_alive();
    assert!(d.is_alive());
    assert!(d.is_checked());
}
