use tiles2048::components::Position;
use tiles2048::entities::GameTile;
use tiles2048::error::GridFullError;

fn used_cells() -> Vec<Position> {
    vec![
        Position::new(0, 0),
        Position::new(1, 0),
        Position::new(2, 1),
        Position::new(0, 1),
        Position::new(1, 2),
        Position::new(0, 2),
        Position::new(1, 3),
    ]
}

fn every_cell() -> Vec<Position> {
    Position::all()
}

#[test]
fn with_draws_pairs_the_picked_position_with_the_drawn_value() {
    let used = used_cells();
    let made = GameTile::with_draws(used.iter(), 4, 3).unwrap();
    assert_eq!(made.position(), Position::new(2, 3));
    assert_eq!(made.tile().value(), 1);
    let made = GameTile::with_draws(used.iter(), 9, 10).unwrap();
    assert_eq!(made.position(), Position::new(0, 3));
    assert_eq!(made.tile().value(), 0);
}

#[test]
fn with_draws_fails_on_a_full_board() {
    let used = every_cell();
    assert_eq!(GameTile::with_draws(used.iter(), 0, 0).err(), Some(GridFullError));
    assert_eq!(GameTile::with_draws(used.iter(), 77, 1).err(), Some(GridFullError));
}

#[test]
fn new_random_game_tile_stands_on_a_free_cell() {
    let used = used_cells();
    for _ in 0..300 {
        let made = GameTile::new_random(used.iter()).unwrap();
        let position = made.position();
        assert!(position.x() < 4 && position.y() < 4);
        assert!(!used.contains(&position));
        let value = made.tile().value();
        assert!(value == 0 || value == 1);
    }
}

#[test]
fn new_random_game_tile_on_an_empty_board() {
    let none: Vec<Position> = Vec::new();
    let made = GameTile::new_random(none.iter()).unwrap();
    assert!(made.position().x() < 4 && made.position().y() < 4);
    assert!(made.tile().value() <= 1);
}

#[test]
fn new_random_game_tile_fails_on_a_full_board() {
    let used = every_cell();
    for _ in 0..20 {
        assert_eq!(GameTile::new_random(used.iter()).err(), Some(GridFullError));
    }
}

#[test]
fn new_random_game_tile_draws_position_and_value_apart() {
    let used = used_cells();
    let mut seen = std::collections::HashSet::new();
    for _ in 0..2000 {
        let made = GameTile::new_random(used.iter()).unwrap();
        seen.insert((made.position(), made.tile().value()));
    }
    // 9 free cells, each with both values
    assert_eq!(seen.len(), 18);
}

#[test]
fn filling_the_board_tile_by_tile() {
    let mut used: Vec<Position> = Vec::new();
    for placed in 0..16 {
        assert_eq!(used.len(), placed);
        let made = GameTile::new_random(used.iter()).unwrap();
        assert!(!used.contains(&made.position()));
        used.push(made.position());
    }
    assert_eq!(GameTile::new_random(used.iter()).err(), Some(GridFullError));
}
