use vstd::prelude::*;

use crate::components::Position;

verus! {

pub const MAP_WIDTH: i32 = 80;
pub const MAP_HEIGHT: i32 = 50;

/// Every street of the city-blocks layout is this many tiles wide.
pub const STREET_WIDTH: i32 = 6;
/// The first row of the top street.
pub const TOP_STREET_START: i32 = 10;
/// Rows kept between the bottom street and the bottom edge.
pub const BOTTOM_STREET_MARGIN: i32 = 10;
/// The first column of the left street.
pub const LEFT_STREET_START: i32 = 12;
/// Columns kept between the right street and the right edge.
pub const RIGHT_STREET_MARGIN: i32 = 12;

/// What a single cell of the grid is made of.
#[derive(Debug, Clone, Copy, PartialEq, Eq, Structural)]
pub enum TileType {
    Wall,
    Floor,
}

/// A rectangular grid of tiles, stored row by row.
pub struct GameMap {
    pub tiles: Vec<TileType>,
    pub width: i32,
    pub height: i32,
}

/// The cells `y * w + x` of a `w` by `h` grid stay inside `0 .. w * h`.
proof fn lemma_idx_in_range(w: int, h: int, x: int, y: int)
    requires
        0 <= x < w,
        0 <= y < h,
    ensures
        0 <= y * w + x < w * h,
{
    assert(0 <= y * w) by (nonlinear_arith)
        requires
            0 <= y,
            0 < w,
    ;
    assert(y * w + w <= w * h) by (nonlinear_arith)
        requires
            0 <= y < h,
            0 < w,
    ;
}

/// Two cells of a grid of width `w` share a row-major index only if they are the same cell.
proof fn lemma_idx_injective(w: int, x1: int, y1: int, x2: int, y2: int)
    requires
        0 <= x1 < w,
        0 <= x2 < w,
        0 <= y1,
        0 <= y2,
        y1 * w + x1 == y2 * w + x2,
    ensures
        x1 == x2 && y1 == y2,
{
    if y1 < y2 {
        assert(y1 * w + w <= y2 * w) by (nonlinear_arith)
            requires
                y1 < y2,
                0 < w,
        ;
    } else if y2 < y1 {
        assert(y2 * w + w <= y1 * w) by (nonlinear_arith)
            requires
                y2 < y1,
                0 < w,
        ;
    }
}

impl GameMap {
    /// The dimensions are positive, every index fits an `i32`, and there is one tile per cell.
    pub open spec fn wf(&self) -> bool {
        &&& 0 < self.width
        &&& 0 < self.height
        &&& self.width * self.height <= i32::MAX
        &&& self.tiles@.len() == self.width * self.height
    }

    pub open spec fn in_bounds(&self, x: int, y: int) -> bool {
        0 <= x < self.width && 0 <= y < self.height
    }

    pub open spec fn idx(&self, x: int, y: int) -> int {
        y * self.width + x
    }

    pub open spec fn tile_at(&self, x: int, y: int) -> TileType {
        self.tiles@[self.idx(x, y)]
    }

    /// Whether the map is well formed, as `wf` states it.
    pub fn is_well_formed(&self) -> (r: bool)
        ensures
            r == self.wf(),
    {
        if self.width <= 0 || self.height <= 0 {
            return false;
        }
        let w: i64 = self.width as i64;
        let h: i64 = self.height as i64;
        assert(0 < w * h <= i32::MAX as int * i32::MAX as int) by (nonlinear_arith)
            requires
                0 < w <= i32::MAX,
                0 < h <= i32::MAX,
        ;
        let cells: i64 = w * h;
        cells <= i32::MAX as i64 && self.tiles.len() == cells as usize
    }

    /// The row-major index of cell `(x, y)`.
    pub fn xy_idx(&self, x: i32, y: i32) -> (r: usize)
        requires
            self.wf(),
            self.in_bounds(x as int, y as int),
        ensures
            r as int == self.idx(x as int, y as int),
            r < self.tiles@.len(),
    {
        proof {
            lemma_idx_in_range(self.width as int, self.height as int, x as int, y as int);
        }
        (y * self.width + x) as usize
    }

    /// Sets cell `(x, y)` to `t` and leaves every other cell as it was.
    pub fn set_tile(&mut self, x: i32, y: i32, t: TileType)
        requires
            old(self).wf(),
            old(self).in_bounds(x as int, y as int),
        ensures
            final(self).wf(),
            final(self).width == old(self).width,
            final(self).height == old(self).height,
            final(self).tile_at(x as int, y as int) == t,
            forall|cx: int, cy: int|
                #![trigger final(self).tile_at(cx, cy)]
                old(self).in_bounds(cx, cy) && !(cx == x && cy == y) ==> final(self).tile_at(cx, cy)
                    == old(self).tile_at(cx, cy),
    {
        let idx = self.xy_idx(x, y);
        self.tiles.set(idx, t);
        proof {
            assert forall|cx: int, cy: int|
                #![trigger self.tile_at(cx, cy)]
                old(self).in_bounds(cx, cy) && !(cx == x && cy == y) implies self.tile_at(cx, cy)
                    == old(self).tile_at(cx, cy) by {
                lemma_idx_in_range(self.width as int, self.height as int, cx, cy);
                if self.idx(cx, cy) == idx as int {
                    lemma_idx_injective(self.width as int, cx, cy, x as int, y as int);
                }
            }
        }
    }

    /// A copy of every cell.
    pub fn copy_tiles(&self) -> (r: Vec<TileType>)
        ensures
            r@ == self.tiles@,
    {
        let mut r: Vec<TileType> = Vec::new();
        let mut i: usize = 0;
        while i < self.tiles.len()
            invariant
                i <= self.tiles@.len(),
                r@ == self.tiles@.subrange(0, i as int),
            decreases self.tiles@.len() - i,
        {
            r.push(self.tiles[i]);
            i = i + 1;
        }
        assert(r@ =~= self.tiles@);
        r
    }

    /// Turns every cell into `t`.
    fn fill(&mut self, t: TileType)
        requires
            old(self).wf(),
        ensures
            final(self).wf(),
            final(self).width == old(self).width,
            final(self).height == old(self).height,
            forall|cx: int, cy: int|
                #![trigger final(self).tile_at(cx, cy)]
                final(self).in_bounds(cx, cy) ==> final(self).tile_at(cx, cy) == t,
    {
        let mut i: usize = 0;
        while i < self.tiles.len()
            invariant
                self.wf(),
                self.width == old(self).width,
                self.height == old(self).height,
                i <= self.tiles@.len(),
                forall|j: int| 0 <= j < i ==> #[trigger] self.tiles@[j] == t,
            decreases self.tiles@.len() - i,
        {
            self.tiles.set(i, t);
            i = i + 1;
        }
        proof {
            assert forall|cx: int, cy: int|
                #![trigger self.tile_at(cx, cy)]
                self.in_bounds(cx, cy) implies self.tile_at(cx, cy) == t by {
                lemma_idx_in_range(self.width as int, self.height as int, cx, cy);
            }
        }
    }

    /// Turns every cell of the rows `y0 .. y1` into floor.
    fn carve_rows(&mut self, y0: i32, y1: i32)
        requires
            old(self).wf(),
            0 <= y0 <= y1 <= old(self).height,
        ensures
            final(self).wf(),
            final(self).width == old(self).width,
            final(self).height == old(self).height,
            forall|cx: int, cy: int|
                #![trigger final(self).tile_at(cx, cy)]
                final(self).in_bounds(cx, cy) ==> final(self).tile_at(cx, cy) == if y0 <= cy < y1 {
                    TileType::Floor
                } else {
                    old(self).tile_at(cx, cy)
                },
    {
        let mut y: i32 = y0;
        while y < y1
            invariant
                self.wf(),
                self.width == old(self).width,
                self.height == old(self).height,
                0 <= y0 <= y <= y1 <= self.height,
                forall|cx: int, cy: int|
                    #![trigger self.tile_at(cx, cy)]
                    self.in_bounds(cx, cy) ==> self.tile_at(cx, cy) == if y0 <= cy < y {
                        TileType::Floor
                    } else {
                        old(self).tile_at(cx, cy)
                    },
            decreases y1 - y,
        {
            let mut x: i32 = 0;
            while x < self.width
                invariant
                    self.wf(),
                    self.width == old(self).width,
                    self.height == old(self).height,
                    0 <= y0 <= y < y1 <= self.height,
                    0 <= x <= self.width,
                    forall|cx: int, cy: int|
                        #![trigger self.tile_at(cx, cy)]
                        self.in_bounds(cx, cy) ==> self.tile_at(cx, cy) == if y0 <= cy < y || (cy
                            == y && cx < x) {
                            TileType::Floor
                        } else {
                            old(self).tile_at(cx, cy)
                        },
                decreases self.width - x,
            {
                self.set_tile(x, y, TileType::Floor);
                x = x + 1;
            }
            y = y + 1;
        }
    }

    /// Turns every cell of the columns `x0 .. x1` into floor.
    fn carve_columns(&mut self, x0: i32, x1: i32)
        requires
            old(self).wf(),
            0 <= x0 <= x1 <= old(self).width,
        ensures
            final(self).wf(),
            final(self).width == old(self).width,
            final(self).height == old(self).height,
            forall|cx: int, cy: int|
                #![trigger final(self).tile_at(cx, cy)]
                final(self).in_bounds(cx, cy) ==> final(self).tile_at(cx, cy) == if x0 <= cx < x1 {
                    TileType::Floor
                } else {
                    old(self).tile_at(cx, cy)
                },
    {
        let mut x: i32 = x0;
        while x < x1
            invariant
                self.wf(),
                self.width == old(self).width,
                self.height == old(self).height,
                0 <= x0 <= x <= x1 <= self.width,
                forall|cx: int, cy: int|
                    #![trigger self.tile_at(cx, cy)]
                    self.in_bounds(cx, cy) ==> self.tile_at(cx, cy) == if x0 <= cx < x {
                        TileType::Floor
                    } else {
                        old(self).tile_at(cx, cy)
                    },
            decreases x1 - x,
        {
            let mut y: i32 = 0;
            while y < self.height
                invariant
                    self.wf(),
                    self.width == old(self).width,
                    self.height == old(self).height,
                    0 <= x0 <= x < x1 <= self.width,
                    0 <= y <= self.height,
                    forall|cx: int, cy: int|
                        #![trigger self.tile_at(cx, cy)]
                        self.in_bounds(cx, cy) ==> self.tile_at(cx, cy) == if x0 <= cx < x || (cx
                            == x && cy < y) {
                            TileType::Floor
                        } else {
                            old(self).tile_at(cx, cy)
                        },
                decreases self.height - y,
            {
                self.set_tile(x, y, TileType::Floor);
                y = y + 1;
            }
            x = x + 1;
        }
    }
}

/// Whether coordinate `v` lies in the street that starts at `start`.
pub open spec fn in_street(v: int, start: int) -> bool {
    start <= v < start + STREET_WIDTH
}

/// Whether cell `(x, y)` of a `w` by `h` city-blocks grid is carved out as street.
pub open spec fn is_city_street(w: int, h: int, x: int, y: int) -> bool {
    ||| in_street(y, TOP_STREET_START as int)
    ||| in_street(y, h - BOTTOM_STREET_MARGIN - STREET_WIDTH)
    ||| in_street(x, LEFT_STREET_START as int)
    ||| in_street(x, w - RIGHT_STREET_MARGIN - STREET_WIDTH)
    ||| in_street(x, w / 2 - 3)
}

/// The tile that the city-blocks layout puts at `(x, y)`.
pub open spec fn city_tile(w: int, h: int, x: int, y: int) -> TileType {
    if is_city_street(w, h, x, y) {
        TileType::Floor
    } else {
        TileType::Wall
    }
}

/// A strategy that generates a map and a place to start on it.
pub trait MapBuilder {
    /// The builder is in a state from which `build_map` can run.
    spec fn can_build(&self) -> bool;

    /// The strategy's own account of a finished map.
    spec fn is_built(&self) -> bool;

    /// The map held by the builder.
    spec fn grid(&self) -> GameMap;

    /// The starting position held by the builder.
    spec fn start(&self) -> Position;

    /// Generates the map and picks a floor cell to start on.
    fn build_map(&mut self)
        requires
            old(self).can_build(),
        ensures
            final(self).is_built(),
            final(self).grid().wf(),
            final(self).grid().width == old(self).grid().width,
            final(self).grid().height == old(self).grid().height,
            final(self).grid().in_bounds(final(self).start().x as int, final(self).start().y as int),
            final(self).grid().tile_at(final(self).start().x as int, final(self).start().y as int)
                == TileType::Floor,
    ;

    /// A copy of the map held by the builder.
    fn get_map(&self) -> (r: GameMap)
        ensures
            r.width == self.grid().width,
            r.height == self.grid().height,
            r.tiles@ == self.grid().tiles@,
    ;

    /// The starting position held by the builder.
    fn get_starting_position(&self) -> (r: Position)
        ensures
            r == self.start(),
    ;
}

/// Builds a grid of intersecting streets: two horizontal ones near the top and
/// bottom edges, three vertical ones near the left edge, the right edge and the middle.
pub struct CityBlocksBuilder {
    pub map: GameMap,
    pub starting_position: Position,
}

impl CityBlocksBuilder {
    /// A builder holding an all-wall grid of the standard size.
    pub fn new() -> (r: Self)
        ensures
            r.map.wf(),
            r.map.width == MAP_WIDTH,
            r.map.height == MAP_HEIGHT,
            forall|x: int, y: int|
                #![trigger r.map.tile_at(x, y)]
                r.map.in_bounds(x, y) ==> r.map.tile_at(x, y) == TileType::Wall,
            r.starting_position == (Position { x: 0, y: 0 }),
            r.can_build(),
    {
        let r = CityBlocksBuilder {
            map: GameMap {
                tiles: vec![TileType::Wall; (MAP_WIDTH * MAP_HEIGHT) as usize],
                width: MAP_WIDTH,
                height: MAP_HEIGHT,
            },
            starting_position: Position { x: 0, y: 0 },
        };
        proof {
            assert forall|x: int, y: int|
                #![trigger r.map.tile_at(x, y)]
                r.map.in_bounds(x, y) implies r.map.tile_at(x, y) == TileType::Wall by {
                lemma_idx_in_range(MAP_WIDTH as int, MAP_HEIGHT as int, x, y);
            }
        }
        r
    }
}

impl MapBuilder for CityBlocksBuilder {
    /// The grid is well formed and large enough to hold every street.
    open spec fn can_build(&self) -> bool {
        &&& self.map.wf()
        &&& self.map.width >= LEFT_STREET_START + STREET_WIDTH
        &&& self.map.height >= TOP_STREET_START + STREET_WIDTH
    }

    /// Every cell follows the city-blocks layout, and the start lies in the middle
    /// of the top street, halfway across.
    open spec fn is_built(&self) -> bool {
        &&& self.can_build()
        &&& forall|x: int, y: int|
            #![trigger self.map.tile_at(x, y)]
            self.map.in_bounds(x, y) ==> self.map.tile_at(x, y) == city_tile(
                self.map.width as int,
                self.map.height as int,
                x,
                y,
            )
        &&& self.starting_position.x == self.map.width / 2
        &&& self.starting_position.y == TOP_STREET_START + STREET_WIDTH / 2
    }

    open spec fn grid(&self) -> GameMap {
        self.map
    }

    open spec fn start(&self) -> Position {
        self.starting_position
    }

    fn build_map(&mut self) {
        self.map.fill(TileType::Wall);

        let top_street_start: i32 = TOP_STREET_START;
        let bottom_street_start: i32 = self.map.height - BOTTOM_STREET_MARGIN - STREET_WIDTH;
        self.map.carve_rows(top_street_start, top_street_start + STREET_WIDTH);
        self.map.carve_rows(bottom_street_start, bottom_street_start + STREET_WIDTH);

        let left_street_start: i32 = LEFT_STREET_START;
        let right_street_start: i32 = self.map.width - RIGHT_STREET_MARGIN - STREET_WIDTH;
        let center_street_start: i32 = (self.map.width / 2) - 3;
        self.map.carve_columns(left_street_start, left_street_start + STREET_WIDTH);
        self.map.carve_columns(right_street_start, right_street_start + STREET_WIDTH);
        self.map.carve_columns(center_street_start, center_street_start + STREET_WIDTH);

        self.starting_position = Position {
            x: self.map.width / 2,
            y: top_street_start + STREET_WIDTH / 2,
        };
    }

    fn get_map(&self) -> (r: GameMap) {
        GameMap { tiles: self.map.copy_tiles(), width: self.map.width, height: self.map.height }
    }

    fn get_starting_position(&self) -> (r: Position) {
        self.starting_position
    }
}

/// Generates a city-blocks map of the standard size.
pub fn new_map() -> (r: GameMap)
    ensures
        r.wf(),
        r.width == MAP_WIDTH,
        r.height == MAP_HEIGHT,
        forall|x: int, y: int|
            #![trigger r.tile_at(x, y)]
            r.in_bounds(x, y) ==> r.tile_at(x, y) == city_tile(
                MAP_WIDTH as int,
                MAP_HEIGHT as int,
                x,
                y,
            ),
{
    let mut builder = CityBlocksBuilder::new();
    builder.build_map();
    let r = builder.get_map();
    assert forall|x: int, y: int|
        #![trigger r.tile_at(x, y)]
        r.in_bounds(x, y) implies r.tile_at(x, y) == city_tile(
            MAP_WIDTH as int,
            MAP_HEIGHT as int,
            x,
            y,
        ) by {
        assert(r.tile_at(x, y) == builder.map.tile_at(x, y));
    }
    r
}

/// Once a city-blocks builder has run, every street cell is floor, every other
/// cell is wall, and the starting position is a floor cell of the grid.
pub proof fn lemma_city_blocks_layout(b: &CityBlocksBuilder)
    requires
        b.is_built(),
    ensures
        forall|x: int, y: int|
            #![trigger b.map.tile_at(x, y)]
            b.map.in_bounds(x, y) && is_city_street(b.map.width as int, b.map.height as int, x, y)
                ==> b.map.tile_at(x, y) == TileType::Floor,
        forall|x: int, y: int|
            #![trigger b.map.tile_at(x, y)]
            b.map.in_bounds(x, y) && !is_city_street(b.map.width as int, b.map.height as int, x, y)
                ==> b.map.tile_at(x, y) == TileType::Wall,
        b.map.in_bounds(b.starting_position.x as int, b.starting_position.y as int),
        b.map.tile_at(b.starting_position.x as int, b.starting_position.y as int)
            == TileType::Floor,
{
}

/// Whether `(x, y)` is one of the positions of `s`.
pub open spec fn lists_position(s: Seq<Position>, x: int, y: int) -> bool {
    exists|k: int| 0 <= k < s.len() && (#[trigger] s[k]).x == x && s[k].y == y
}

/// Whether `a` comes before `b` when cells are read row by row.
pub open spec fn row_major_before(a: Position, b: Position) -> bool {
    a.y < b.y || (a.y == b.y && a.x < b.x)
}

/// The wall cells of `map`, read row by row from the top left: what a renderer
/// draws as walls.
pub fn wall_positions(map: &GameMap) -> (r: Vec<Position>)
    requires
        map.wf(),
    ensures
        forall|k: int|
            0 <= k < r@.len() ==> map.in_bounds((#[trigger] r@[k]).x as int, r@[k].y as int)
                && map.tile_at(r@[k].x as int, r@[k].y as int) == TileType::Wall,
        forall|x: int, y: int|
            #![trigger map.tile_at(x, y)]
            map.in_bounds(x, y) && map.tile_at(x, y) == TileType::Wall ==> lists_position(r@, x, y),
        forall|k: int, l: int|
            0 <= k < l < r@.len() ==> row_major_before(#[trigger] r@[k], #[trigger] r@[l]),
{
    let mut r: Vec<Position> = Vec::new();
    let mut y: i32 = 0;
    while y < map.height
        invariant
            map.wf(),
            0 <= y <= map.height,
            forall|k: int|
                0 <= k < r@.len() ==> map.in_bounds((#[trigger] r@[k]).x as int, r@[k].y as int)
                    && map.tile_at(r@[k].x as int, r@[k].y as int) == TileType::Wall
                    && r@[k].y < y,
            forall|cx: int, cy: int|
                #![trigger map.tile_at(cx, cy)]
                map.in_bounds(cx, cy) && map.tile_at(cx, cy) == TileType::Wall && cy < y
                    ==> lists_position(r@, cx, cy),
            forall|k: int, l: int|
                0 <= k < l < r@.len() ==> row_major_before(#[trigger] r@[k], #[trigger] r@[l]),
        decreases map.height - y,
    {
        let mut x: i32 = 0;
        while x < map.width
            invariant
                map.wf(),
                0 <= y < map.height,
                0 <= x <= map.width,
                forall|k: int|
                    0 <= k < r@.len() ==> map.in_bounds((#[trigger] r@[k]).x as int, r@[k].y as int)
                        && map.tile_at(r@[k].x as int, r@[k].y as int) == TileType::Wall
                        && row_major_before(r@[k], Position { x, y }),
                forall|cx: int, cy: int|
                    #![trigger map.tile_at(cx, cy)]
                    map.in_bounds(cx, cy) && map.tile_at(cx, cy) == TileType::Wall && (cy < y || (cy
                        == y && cx < x)) ==> lists_position(r@, cx, cy),
                forall|k: int, l: int|
                    0 <= k < l < r@.len() ==> row_major_before(#[trigger] r@[k], #[trigger] r@[l]),
            decreases map.width - x,
        {
            let idx = map.xy_idx(x, y);
            if map.tiles[idx] == TileType::Wall {
                let ghost before = r@;
                r.push(Position { x, y });
                proof {
                    assert forall|cx: int, cy: int|
                        #![trigger map.tile_at(cx, cy)]
                        map.in_bounds(cx, cy) && map.tile_at(cx, cy) == TileType::Wall && (cy < y
                            || (cy == y && cx < x + 1)) implies lists_position(r@, cx, cy) by {
                        if cy == y && cx == x {
                            assert(r@[before.len() as int] == Position { x, y });
                        } else {
                            assert(lists_position(before, cx, cy));
                            let k = choose|k: int|
                                0 <= k < before.len() && (#[trigger] before[k]).x == cx && before[k].y
                                    == cy;
                            assert(r@[k] == before[k]);
                        }
                    }
                }
            }
            x = x + 1;
        }
        y = y + 1;
    }
    r
}

} // verus!
