use tiles2048::components::Tile;

#[test]
fn new_tile_has_value_zero() {
    for _ in 0..10 {
        assert_eq!(Tile::new().value(), 0);
    }
}

#[test]
fn default_tile_has_value_zero() {
    assert_eq!(Tile::default().value(), 0);
}

#[test]
fn from_draw_keeps_the_parity_of_the_draw() {
    assert_eq!(Tile::from_draw(0).value(), 0);
    assert_eq!(Tile::from_draw(1).value(), 1);
    assert_eq!(Tile::from_draw(2).value(), 0);
    assert_eq!(Tile::from_draw(7).value(), 1);
    assert_eq!(Tile::from_draw(u32::MAX).value(), 1);
    assert_eq!(Tile::from_draw(u32::MAX - 1).value(), 0);
}

#[test]
fn new_random_tile_is_zero_or_one() {
    for _ in 0..1000 {
        let value = Tile::new_random().value();
        assert!(value == 0 || value == 1);
    }
}

#[test]
fn new_random_tile_gives_both_values_about_equally() {
    let trials = 10000;
    let mut ones = 0;
    for _ in 0..trials {
        ones += Tile::new_random().value();
    }
    assert!(ones > 4500 && ones < 5500);
}

#[test]
fn shown_number_is_two_or_four_for_a_new_tile() {
    for _ in 0..100 {
        let shown = 2u32.pow(Tile::new_random().value() + 1);
        assert!(shown == 2 || shown == 4);
    }
    assert_eq!(2u32.pow(Tile::new().value() + 1), 2);
}
