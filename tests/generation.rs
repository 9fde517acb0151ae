use std::collections::HashSet;

use egg_runner::components::Position;
use egg_runner::map::{new_map, wall_positions, CityBlocksBuilder, GameMap, MapBuilder, TileType};
use egg_runner::noise_map::{bordered_map, new_noise_map, stamp_walls, NOISE_WALL_DRAWS};

fn tile(map: &GameMap, x: i32, y: i32) -> TileType {
    map.tiles[map.xy_idx(x, y)]
}

fn is_street(x: i32, y: i32) -> bool {
    (10..16).contains(&y)
        || (34..40).contains(&y)
        || (12..18).contains(&x)
        || (62..68).contains(&x)
        || (37..43).contains(&x)
}

#[test]
fn xy_idx_is_row_major() {
    let map = new_map();
    assert_eq!(map.xy_idx(0, 0), 0);
    assert_eq!(map.xy_idx(3, 2), 163);
    assert_eq!(map.xy_idx(79, 49), 3999);
}

#[test]
fn new_builder_is_all_wall() {
    let b = CityBlocksBuilder::new();
    assert_eq!(b.map.width, 80);
    assert_eq!(b.map.height, 50);
    assert_eq!(b.map.tiles.len(), 4000);
    assert!(b.map.tiles.iter().all(|t| *t == TileType::Wall));
    assert_eq!(b.starting_position, Position { x: 0, y: 0 });
}

#[test]
fn city_blocks_layout_is_streets_and_walls() {
    let mut b = CityBlocksBuilder::new();
    b.build_map();
    let map = b.get_map();
    assert_eq!(map.width, 80);
    assert_eq!(map.height, 50);
    for y in 0..50 {
        for x in 0..80 {
            let expected = if is_street(x, y) { TileType::Floor } else { TileType::Wall };
            assert!(tile(&map, x, y) == expected, "cell ({}, {})", x, y);
        }
    }
}

#[test]
fn city_blocks_start_is_on_floor() {
    let mut b = CityBlocksBuilder::new();
    b.build_map();
    let start = b.get_starting_position();
    assert_eq!(start, Position { x: 40, y: 13 });
    assert!(tile(&b.get_map(), start.x, start.y) == TileType::Floor);
}

#[test]
fn city_blocks_rebuild_resets_the_grid() {
    let mut b = CityBlocksBuilder::new();
    b.map.set_tile(0, 0, TileType::Floor);
    b.build_map();
    assert!(tile(&b.map, 0, 0) == TileType::Wall);
}

#[test]
fn new_map_is_the_city_blocks_map() {
    let mut b = CityBlocksBuilder::new();
    b.build_map();
    let built = b.get_map();
    let map = new_map();
    assert!(map.tiles == built.tiles);
    assert_eq!(map.tiles.iter().filter(|t| **t == TileType::Floor).count(), 1644);
}

#[test]
fn bordered_map_has_walls_only_on_the_ring() {
    let map = bordered_map();
    for y in 0..50 {
        for x in 0..80 {
            let ring = x == 0 || x == 79 || y == 0 || y == 49;
            let expected = if ring { TileType::Wall } else { TileType::Floor };
            assert!(tile(&map, x, y) == expected);
        }
    }
}

#[test]
fn stamp_walls_walls_each_listed_cell() {
    let mut map = bordered_map();
    stamp_walls(&mut map, &vec![(5, 6), (5, 6), (78, 48)]);
    assert!(tile(&map, 5, 6) == TileType::Wall);
    assert!(tile(&map, 78, 48) == TileType::Wall);
    assert!(tile(&map, 6, 5) == TileType::Floor);
    let walls = map.tiles.iter().filter(|t| **t == TileType::Wall).count();
    assert_eq!(walls, 258);
}

#[test]
fn noise_map_ring_is_wall() {
    for _ in 0..5 {
        let map = new_noise_map();
        assert_eq!(map.width, 80);
        assert_eq!(map.height, 50);
        for x in 0..80 {
            assert!(tile(&map, x, 0) == TileType::Wall);
            assert!(tile(&map, x, 49) == TileType::Wall);
        }
        for y in 0..50 {
            assert!(tile(&map, 0, y) == TileType::Wall);
            assert!(tile(&map, 79, y) == TileType::Wall);
        }
    }
}

#[test]
fn noise_map_walls_at_most_the_draws_inside() {
    let map = new_noise_map();
    let mut inner = HashSet::new();
    for y in 1..49 {
        for x in 1..79 {
            if tile(&map, x, y) == TileType::Wall {
                inner.insert((x, y));
            }
        }
    }
    assert!(inner.len() <= NOISE_WALL_DRAWS);
    // Draws spread over the interior rather than landing on one cell.
    assert!(inner.len() > 1);
    assert!(inner.iter().any(|&(x, _)| x != 1));
}

#[test]
fn wall_positions_lists_walls_row_by_row() {
    let map = bordered_map();
    let walls = wall_positions(&map);
    assert_eq!(walls.len(), 2 * 80 + 2 * 48);
    assert_eq!(walls[0], Position { x: 0, y: 0 });
    assert_eq!(walls[79], Position { x: 79, y: 0 });
    assert_eq!(walls[80], Position { x: 0, y: 1 });
    assert_eq!(walls[81], Position { x: 79, y: 1 });
    assert_eq!(walls[walls.len() - 1], Position { x: 79, y: 49 });
}

#[test]
fn wall_positions_match_the_city_blocks_map() {
    let map = new_map();
    let walls = wall_positions(&map);
    assert_eq!(walls.len(), 4000 - 1644);
    for p in &walls {
        assert!(!is_street(p.x, p.y));
    }
}
