use egg_runner::components::Position;
use egg_runner::map::{new_map, GameMap, TileType, MAP_HEIGHT, MAP_WIDTH};
use egg_runner::noise_map::bordered_map;
use egg_runner::player::{player_input, step_toward, try_move_player};

fn open_map() -> GameMap {
    GameMap {
        tiles: vec![TileType::Floor; (MAP_WIDTH * MAP_HEIGHT) as usize],
        width: MAP_WIDTH,
        height: MAP_HEIGHT,
    }
}

#[test]
fn move_off_the_left_edge_is_refused() {
    let map = open_map();
    let mut p = Position { x: 0, y: 13 };
    try_move_player(-1, 0, &map, &mut p);
    assert_eq!(p, Position { x: 0, y: 13 });
}

#[test]
fn move_off_the_bottom_right_corner_is_refused() {
    let map = open_map();
    let mut p = Position { x: 79, y: 49 };
    try_move_player(1, 1, &map, &mut p);
    assert_eq!(p, Position { x: 79, y: 49 });
    try_move_player(0, 1, &map, &mut p);
    assert_eq!(p, Position { x: 79, y: 49 });
}

#[test]
fn move_with_extreme_displacement_is_refused() {
    let map = open_map();
    let mut p = Position { x: 40, y: 25 };
    try_move_player(i32::MAX, i32::MIN, &map, &mut p);
    assert_eq!(p, Position { x: 40, y: 25 });
}

#[test]
fn move_into_wall_is_refused() {
    let map = new_map();
    // (5, 9) lies in no street of the city-blocks layout.
    assert!(map.tiles[map.xy_idx(5, 9)] == TileType::Wall);
    let mut p = Position { x: 5, y: 10 };
    try_move_player(0, -1, &map, &mut p);
    assert_eq!(p, Position { x: 5, y: 10 });
}

#[test]
fn move_onto_floor_is_committed() {
    let map = new_map();
    let mut p = Position { x: 5, y: 10 };
    try_move_player(1, 1, &map, &mut p);
    assert_eq!(p, Position { x: 6, y: 11 });
    try_move_player(-1, 0, &map, &mut p);
    assert_eq!(p, Position { x: 5, y: 11 });
}

#[test]
fn zero_displacement_is_a_no_op() {
    let mut map = open_map();
    let mut p = Position { x: 10, y: 10 };
    try_move_player(0, 0, &map, &mut p);
    assert_eq!(p, Position { x: 10, y: 10 });
    map.set_tile(10, 10, TileType::Wall);
    try_move_player(0, 0, &map, &mut p);
    assert_eq!(p, Position { x: 10, y: 10 });
}

#[test]
fn step_toward_gives_the_sign_of_the_difference() {
    assert_eq!(step_toward(40, 0), -1);
    assert_eq!(step_toward(25, 25), 0);
    assert_eq!(step_toward(3, 70), 1);
    assert_eq!(step_toward(i32::MAX, i32::MIN), -1);
    assert_eq!(step_toward(i32::MIN, i32::MAX), 1);
}

#[test]
fn click_at_origin_steps_diagonally_onto_floor() {
    let map = bordered_map();
    assert_eq!(map.width, 80);
    assert_eq!(map.height, 50);
    let mut p = Position { x: 40, y: 25 };
    assert_eq!((step_toward(p.x, 0), step_toward(p.y, 0)), (-1, -1));
    player_input(true, 0, 0, &map, &mut p);
    assert_eq!(p, Position { x: 39, y: 24 });
}

#[test]
fn click_at_origin_is_blocked_by_wall() {
    let mut map = bordered_map();
    map.set_tile(39, 24, TileType::Wall);
    let mut p = Position { x: 40, y: 25 };
    player_input(true, 0, 0, &map, &mut p);
    assert_eq!(p, Position { x: 40, y: 25 });
}

#[test]
fn no_click_means_no_move() {
    let map = bordered_map();
    let mut p = Position { x: 40, y: 25 };
    player_input(false, 0, 0, &map, &mut p);
    assert_eq!(p, Position { x: 40, y: 25 });
}

#[test]
fn click_on_the_hero_means_no_move() {
    let map = bordered_map();
    let mut p = Position { x: 40, y: 25 };
    player_input(true, 40, 25, &map, &mut p);
    assert_eq!(p, Position { x: 40, y: 25 });
}
