use move_fast::map::{Coordinates, LoadError, Position, Tile, TileMap};
use move_fast::TILE_SIZE;

fn rows(lines: &[&str]) -> Vec<Vec<u8>> {
    lines.iter().map(|s| s.as_bytes().to_vec()).collect()
}

#[test]
fn load_round_trip() {
    let map = TileMap::load(&rows(&["0,1,2", "3,4,0", "0,0,1"])).unwrap();
    assert_eq!(map.size(), 3);
    assert_eq!(map.tile_at(0, 0), Tile::Empty);
    assert_eq!(map.tile_at(1, 0), Tile::Block);
    assert_eq!(map.tile_at(2, 0), Tile::Start);
    assert_eq!(map.tile_at(0, 1), Tile::Goal);
    assert_eq!(map.tile_at(1, 1), Tile::Enemy);
    assert_eq!(map.tile_at(2, 1), Tile::Empty);
    assert_eq!(map.tile_at(0, 2), Tile::Empty);
    assert_eq!(map.tile_at(1, 2), Tile::Empty);
    assert_eq!(map.tile_at(2, 2), Tile::Block);
}

#[test]
fn load_single_cell() {
    let map = TileMap::load(&rows(&["2"])).unwrap();
    assert_eq!(map.size(), 1);
    assert_eq!(map.tile_at(0, 0), Tile::Start);
}

#[test]
fn load_empty_source() {
    let map = TileMap::load(&rows(&[])).unwrap();
    assert_eq!(map.size(), 0);
}

#[test]
fn load_multi_digit_value() {
    let map = TileMap::load(&rows(&["03"])).unwrap();
    assert_eq!(map.tile_at(0, 0), Tile::Goal);
}

#[test]
fn ragged_short_row_fails() {
    let err = TileMap::load(&rows(&["0,0,0", "0,0", "0,0,0"])).unwrap_err();
    assert_eq!(err, LoadError::ShapeMismatch);
}

#[test]
fn ragged_long_row_fails() {
    let err = TileMap::load(&rows(&["0,0", "0,0,0"])).unwrap_err();
    assert_eq!(err, LoadError::ShapeMismatch);
}

#[test]
fn too_few_rows_fail() {
    let err = TileMap::load(&rows(&["0,0,0"])).unwrap_err();
    assert_eq!(err, LoadError::ShapeMismatch);
}

#[test]
fn malformed_non_numeric() {
    let err = TileMap::load(&rows(&["0,a", "0,0"])).unwrap_err();
    assert_eq!(err, LoadError::MalformedTile);
}

#[test]
fn malformed_out_of_enumeration() {
    let err = TileMap::load(&rows(&["0,5", "0,0"])).unwrap_err();
    assert_eq!(err, LoadError::MalformedTile);
}

#[test]
fn malformed_large_value() {
    let err = TileMap::load(&rows(&["0,2048", "0,0"])).unwrap_err();
    assert_eq!(err, LoadError::MalformedTile);
}

#[test]
fn malformed_empty_field() {
    let err = TileMap::load(&rows(&["0,,0", "0,0,0", "0,0,0"])).unwrap_err();
    assert_eq!(err, LoadError::MalformedTile);
}

#[test]
fn malformed_field_beats_wrong_count() {
    // The bad value sits in a row that is also too long; the tile error
    // is reported, as all fields are examined before the count.
    let err = TileMap::load(&rows(&["0,0,9", "0,0"])).unwrap_err();
    assert_eq!(err, LoadError::MalformedTile);
}

#[test]
fn first_offending_row_decides() {
    // Row 0 is ragged, row 1 holds a malformed value: the ragged row comes
    // first, so the shape error wins.
    let err = TileMap::load(&rows(&["0,0", "9,0,0", "0,0,0"])).unwrap_err();
    assert_eq!(err, LoadError::ShapeMismatch);
}

#[test]
fn tile_value_mapping() {
    assert_eq!(Tile::from_value(0), Some(Tile::Empty));
    assert_eq!(Tile::from_value(1), Some(Tile::Block));
    assert_eq!(Tile::from_value(2), Some(Tile::Start));
    assert_eq!(Tile::from_value(3), Some(Tile::Goal));
    assert_eq!(Tile::from_value(4), Some(Tile::Enemy));
    assert_eq!(Tile::from_value(5), None);
    assert_eq!(Tile::from_value(255), None);
}

#[test]
fn only_block_is_solid() {
    assert!(Tile::Block.is_solid());
    assert!(!Tile::Empty.is_solid());
    assert!(!Tile::Start.is_solid());
    assert!(!Tile::Goal.is_solid());
    assert!(!Tile::Enemy.is_solid());
}

/// The lock-step position of a cell in a grid of the given size.
fn position_of(x: usize, y: usize, size: usize) -> Position {
    let half = (size / 2) as i64;
    Position {
        x: (x as i64 - half) * TILE_SIZE,
        y: (half - y as i64) * TILE_SIZE,
    }
}

#[test]
fn move_into_block_is_refused() {
    // A Block at (1, 0) keeps an entity at (0, 0) from moving right.
    let map = TileMap::load(&rows(&["0,1,0", "0,0,0", "0,0,0"])).unwrap();
    let mut c = Coordinates::new(0, 0);
    let mut p = position_of(0, 0, 3);
    let before = p;
    let moved = c.move_right(&mut p, &map);
    assert!(!moved);
    assert_eq!((c.x(), c.y()), (0, 0));
    assert_eq!(p, before);
}

#[test]
fn move_off_grid_is_refused() {
    let map = TileMap::load(&rows(&["0,0,0", "0,0,0", "0,0,0"])).unwrap();
    let mut c = Coordinates::new(0, 0);
    let mut p = position_of(0, 0, 3);
    let before = p;
    assert!(!c.move_up(&mut p, &map));
    assert!(!c.move_left(&mut p, &map));
    assert_eq!((c.x(), c.y()), (0, 0));
    assert_eq!(p, before);

    let mut c = Coordinates::new(2, 2);
    let mut p = position_of(2, 2, 3);
    let before = p;
    assert!(!c.move_down(&mut p, &map));
    assert!(!c.move_right(&mut p, &map));
    assert_eq!((c.x(), c.y()), (2, 2));
    assert_eq!(p, before);
}

#[test]
fn move_to_free_cell_steps_one_tile() {
    let map = TileMap::load(&rows(&["0,0,0", "0,0,0", "0,0,0"])).unwrap();
    let mut c = Coordinates::new(1, 1);
    let mut p = position_of(1, 1, 3);

    assert!(c.move_right(&mut p, &map));
    assert_eq!((c.x(), c.y()), (2, 1));
    assert_eq!(p, Position { x: TILE_SIZE, y: 0 });

    assert!(c.move_left(&mut p, &map));
    assert_eq!((c.x(), c.y()), (1, 1));
    assert_eq!(p, Position { x: 0, y: 0 });

    assert!(c.move_up(&mut p, &map));
    assert_eq!((c.x(), c.y()), (1, 0));
    assert_eq!(p, Position { x: 0, y: TILE_SIZE });

    assert!(c.move_down(&mut p, &map));
    assert_eq!((c.x(), c.y()), (1, 1));
    assert_eq!(p, Position { x: 0, y: 0 });
}

#[test]
fn movement_is_blocked_identically_for_any_mover() {
    // The same rule answers both player and enemy movement: a wall in the
    // middle refuses entry from every side.
    let map = TileMap::load(&rows(&["0,0,0", "0,1,0", "0,0,0"])).unwrap();
    let mut c = Coordinates::new(1, 0);
    let mut p = position_of(1, 0, 3);
    assert!(!c.move_down(&mut p, &map));
    let mut c = Coordinates::new(1, 2);
    let mut p = position_of(1, 2, 3);
    assert!(!c.move_up(&mut p, &map));
    let mut c = Coordinates::new(0, 1);
    let mut p = position_of(0, 1, 3);
    assert!(!c.move_right(&mut p, &map));
    let mut c = Coordinates::new(2, 1);
    let mut p = position_of(2, 1, 3);
    assert!(!c.move_left(&mut p, &map));
}
