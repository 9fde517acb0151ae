use vstd::prelude::*;

use bracket_lib::prelude::RandomNumberGenerator;

use crate::map::{GameMap, TileType, MAP_HEIGHT, MAP_WIDTH};

verus! {

#[verifier::external_type_specification]
#[verifier::external_body]
pub struct ExRandomNumberGenerator(RandomNumberGenerator);

/// Relies on bracket-random's `RandomNumberGenerator::new`: a generator with a fresh seed.
#[verifier::external_body]
fn new_rng() -> RandomNumberGenerator {
    RandomNumberGenerator::new()
}

/// Relies on bracket-random's `RandomNumberGenerator::range`, which is rand's
/// `gen_range(min..max)`: a value of the half-open range, a panic when it is empty.
#[verifier::external_body]
fn random_range(rng: &mut RandomNumberGenerator, min: i32, max: i32) -> (r: i32)
    requires
        min < max,
    ensures
        min <= r < max,
{
    rng.range(min, max)
}

/// How many interior cells the noise generator draws as walls.
pub const NOISE_WALL_DRAWS: usize = 400;

/// Whether `(x, y)` lies on the outer ring of a `w` by `h` grid.
pub open spec fn on_border(w: int, h: int, x: int, y: int) -> bool {
    x == 0 || x == w - 1 || y == 0 || y == h - 1
}

/// Whether one of the first `n` entries of `cells` is `(x, y)`.
pub open spec fn lists_cell(cells: Seq<(i32, i32)>, n: int, x: int, y: int) -> bool {
    exists|k: int| 0 <= k < n && #[trigger] cells[k] == (x as i32, y as i32)
}

/// Whether every entry of `cells` is a cell of `map`.
pub open spec fn cells_on(map: GameMap, cells: Seq<(i32, i32)>) -> bool {
    forall|k: int| 0 <= k < cells.len() ==> map.in_bounds(#[trigger] cells[k].0 as int, cells[k].1 as int)
}

/// Whether every entry of `cells` lies strictly inside a `w` by `h` grid.
pub open spec fn cells_inside(w: int, h: int, cells: Seq<(i32, i32)>) -> bool {
    forall|k: int|
        0 <= k < cells.len() ==> 1 <= #[trigger] cells[k].0 < w - 1 && 1 <= cells[k].1 < h - 1
}

/// The tile at `(x, y)` of a `w` by `h` noise map whose drawn wall cells are `cells`.
pub open spec fn noise_tile(w: int, h: int, cells: Seq<(i32, i32)>, x: int, y: int) -> TileType {
    if on_border(w, h, x, y) || lists_cell(cells, cells.len() as int, x, y) {
        TileType::Wall
    } else {
        TileType::Floor
    }
}

/// A floor grid of the standard size enclosed by a ring of walls one tile thick.
pub fn bordered_map() -> (r: GameMap)
    ensures
        r.wf(),
        r.width == MAP_WIDTH,
        r.height == MAP_HEIGHT,
        forall|x: int, y: int|
            #![trigger r.tile_at(x, y)]
            r.in_bounds(x, y) ==> r.tile_at(x, y) == if on_border(
                MAP_WIDTH as int,
                MAP_HEIGHT as int,
                x,
                y,
            ) {
                TileType::Wall
            } else {
                TileType::Floor
            },
{
    let mut map = GameMap {
        tiles: vec![TileType::Floor; (MAP_WIDTH * MAP_HEIGHT) as usize],
        width: MAP_WIDTH,
        height: MAP_HEIGHT,
    };

    let mut x: i32 = 0;
    while x < map.width
        invariant
            map.wf(),
            map.width == MAP_WIDTH,
            map.height == MAP_HEIGHT,
            0 <= x <= map.width,
            forall|cx: int, cy: int|
                #![trigger map.tile_at(cx, cy)]
                map.in_bounds(cx, cy) ==> map.tile_at(cx, cy) == if (cy == 0 || cy == map.height - 1) && cx
                    < x {
                    TileType::Wall
                } else {
                    TileType::Floor
                },
        decreases map.width - x,
    {
        map.set_tile(x, 0, TileType::Wall);
        let bottom = map.height - 1;
        map.set_tile(x, bottom, TileType::Wall);
        x = x + 1;
    }

    let mut y: i32 = 0;
    while y < map.height
        invariant
            map.wf(),
            map.width == MAP_WIDTH,
            map.height == MAP_HEIGHT,
            0 <= y <= map.height,
            forall|cx: int, cy: int|
                #![trigger map.tile_at(cx, cy)]
                map.in_bounds(cx, cy) ==> map.tile_at(cx, cy) == if cy == 0 || cy == map.height - 1 || ((cx
                    == 0 || cx == map.width - 1) && cy < y) {
                    TileType::Wall
                } else {
                    TileType::Floor
                },
        decreases map.height - y,
    {
        map.set_tile(0, y, TileType::Wall);
        let right = map.width - 1;
        map.set_tile(right, y, TileType::Wall);
        y = y + 1;
    }
    map
}

/// Turns each listed cell into wall, whatever it was; a cell listed twice is simply
/// walled twice. Every other cell is left as it was.
pub fn stamp_walls(map: &mut GameMap, cells: &Vec<(i32, i32)>)
    requires
        old(map).wf(),
        cells_on(*old(map), cells@),
    ensures
        final(map).wf(),
        final(map).width == old(map).width,
        final(map).height == old(map).height,
        forall|x: int, y: int|
            #![trigger final(map).tile_at(x, y)]
            final(map).in_bounds(x, y) ==> final(map).tile_at(x, y) == if lists_cell(
                cells@,
                cells@.len() as int,
                x,
                y,
            ) {
                TileType::Wall
            } else {
                old(map).tile_at(x, y)
            },
{
    let mut i: usize = 0;
    while i < cells.len()
        invariant
            map.wf(),
            map.width == old(map).width,
            map.height == old(map).height,
            cells_on(*old(map), cells@),
            i <= cells@.len(),
            forall|x: int, y: int|
                #![trigger map.tile_at(x, y)]
                map.in_bounds(x, y) ==> map.tile_at(x, y) == if lists_cell(cells@, i as int, x, y) {
                    TileType::Wall
                } else {
                    old(map).tile_at(x, y)
                },
        decreases cells@.len() - i,
    {
        let (x, y) = cells[i];
        assert(map.in_bounds(cells@[i as int].0 as int, cells@[i as int].1 as int));
        let ghost before = *map;
        map.set_tile(x, y, TileType::Wall);
        proof {
            assert forall|cx: int, cy: int|
                #![trigger map.tile_at(cx, cy)]
                map.in_bounds(cx, cy) implies map.tile_at(cx, cy) == if lists_cell(
                    cells@,
                    i + 1,
                    cx,
                    cy,
                ) {
                    TileType::Wall
                } else {
                    old(map).tile_at(cx, cy)
                } by {
                if cx == x && cy == y {
                    assert(cells@[i as int] == (cx as i32, cy as i32));
                    assert(lists_cell(cells@, i + 1, cx, cy));
                } else {
                    assert(before.tile_at(cx, cy) == map.tile_at(cx, cy));
                    if lists_cell(cells@, i + 1, cx, cy) {
                        let k = choose|k: int| 0 <= k < i + 1 && #[trigger] cells@[k] == (cx as i32, cy as i32);
                        assert(k != i);
                        assert(lists_cell(cells@, i as int, cx, cy));
                    } else {
                        assert(!lists_cell(cells@, i as int, cx, cy));
                    }
                }
            }
        }
        i = i + 1;
    }
}

/// Generates a map of the standard size: a ring of walls around a floor, and
/// walls on interior cells drawn at random, one draw at a time. Draws may repeat,
/// so fewer distinct walls than draws can result.
pub fn new_noise_map() -> (r: GameMap)
    ensures
        r.wf(),
        r.width == MAP_WIDTH,
        r.height == MAP_HEIGHT,
        forall|x: int, y: int|
            #![trigger r.tile_at(x, y)]
            r.in_bounds(x, y) && on_border(MAP_WIDTH as int, MAP_HEIGHT as int, x, y) ==> r.tile_at(
                x,
                y,
            ) == TileType::Wall,
        exists|cells: Seq<(i32, i32)>|
            #![trigger cells_inside(MAP_WIDTH as int, MAP_HEIGHT as int, cells)]
            cells.len() == NOISE_WALL_DRAWS && cells_inside(MAP_WIDTH as int, MAP_HEIGHT as int, cells)
                && forall|x: int, y: int|
                #![trigger r.tile_at(x, y)]
                r.in_bounds(x, y) ==> r.tile_at(x, y) == noise_tile(
                    MAP_WIDTH as int,
                    MAP_HEIGHT as int,
                    cells,
                    x,
                    y,
                ),
{
    let mut map = bordered_map();
    let mut rng = new_rng();
    let mut cells: Vec<(i32, i32)> = Vec::new();
    let mut i: usize = 0;
    while i < NOISE_WALL_DRAWS
        invariant
            map.wf(),
            map.width == MAP_WIDTH,
            map.height == MAP_HEIGHT,
            i <= NOISE_WALL_DRAWS,
            cells@.len() == i,
            cells_inside(MAP_WIDTH as int, MAP_HEIGHT as int, cells@),
        decreases NOISE_WALL_DRAWS - i,
    {
        let x = random_range(&mut rng, 1, map.width - 1);
        let y = random_range(&mut rng, 1, map.height - 1);
        cells.push((x, y));
        i = i + 1;
    }
    let ghost base = map;
    stamp_walls(&mut map, &cells);
    assert forall|x: int, y: int|
        #![trigger map.tile_at(x, y)]
        map.in_bounds(x, y) implies map.tile_at(x, y) == noise_tile(
            MAP_WIDTH as int,
            MAP_HEIGHT as int,
            cells@,
            x,
            y,
        ) by {
        assert(base.tile_at(x, y) == if on_border(MAP_WIDTH as int, MAP_HEIGHT as int, x, y) {
            TileType::Wall
        } else {
            TileType::Floor
        });
    }
    assert(cells_inside(MAP_WIDTH as int, MAP_HEIGHT as int, cells@));
    map
}

} // verus!
