use vstd::prelude::*;

use crate::components::Position;
use crate::map::{GameMap, TileType};

verus! {

/// The sign of `v`: -1, 0 or 1.
pub open spec fn sign(v: int) -> int {
    if v < 0 {
        -1
    } else if v > 0 {
        1
    } else {
        0
    }
}

/// Where an entity at `p` ends up when asked to move by `(dx, dy)` on `map`: on the
/// target cell when it lies on the grid and is floor, else where it was.
pub open spec fn move_result(map: GameMap, p: Position, dx: int, dy: int) -> Position {
    let tx = p.x + dx;
    let ty = p.y + dy;
    if (dx == 0 && dy == 0) || !map.in_bounds(tx, ty) || map.tile_at(tx, ty) == TileType::Wall {
        p
    } else {
        Position { x: tx as i32, y: ty as i32 }
    }
}

/// Moves `hero_pos` by `(delta_x, delta_y)` unless the target cell is off the grid
/// or a wall; a refused move leaves the position as it was.
pub fn try_move_player(delta_x: i32, delta_y: i32, map: &GameMap, hero_pos: &mut Position)
    requires
        map.wf(),
    ensures
        *final(hero_pos) == move_result(*map, *old(hero_pos), delta_x as int, delta_y as int),
        delta_x == 0 && delta_y == 0 ==> *final(hero_pos) == *old(hero_pos),
        !map.in_bounds(old(hero_pos).x + delta_x, old(hero_pos).y + delta_y) ==> *final(hero_pos)
            == *old(hero_pos),
        map.in_bounds(old(hero_pos).x + delta_x, old(hero_pos).y + delta_y) && map.tile_at(
            old(hero_pos).x + delta_x,
            old(hero_pos).y + delta_y,
        ) == TileType::Wall ==> *final(hero_pos) == *old(hero_pos),
        map.in_bounds(old(hero_pos).x + delta_x, old(hero_pos).y + delta_y) && map.tile_at(
            old(hero_pos).x + delta_x,
            old(hero_pos).y + delta_y,
        ) == TileType::Floor ==> final(hero_pos).x == old(hero_pos).x + delta_x
            && final(hero_pos).y == old(hero_pos).y + delta_y,
{
    if delta_x == 0 && delta_y == 0 {
        return ;
    }
    let target_x: i64 = hero_pos.x as i64 + delta_x as i64;
    let target_y: i64 = hero_pos.y as i64 + delta_y as i64;

    if target_x < 0 || target_x >= map.width as i64 || target_y < 0 || target_y >= map.height as i64 {
        return ;
    }

    let destination_idx = map.xy_idx(target_x as i32, target_y as i32);
    if map.tiles[destination_idx] != TileType::Wall {
        hero_pos.x = target_x as i32;
        hero_pos.y = target_y as i32;
    }
}

/// The unit step, -1, 0 or 1, that leads from coordinate `from` toward `to`.
pub fn step_toward(from: i32, to: i32) -> (r: i32)
    ensures
        r == sign(to - from),
{
    let d: i64 = to as i64 - from as i64;
    if d < 0 {
        -1
    } else if d > 0 {
        1
    } else {
        0
    }
}

/// Handles one frame of pointer input: when the primary button was pressed, the
/// hero tries a single step, on each axis toward the pointer.
pub fn player_input(
    mouse_pressed: bool,
    mouse_x: i32,
    mouse_y: i32,
    map: &GameMap,
    hero_pos: &mut Position,
)
    requires
        map.wf(),
    ensures
        !mouse_pressed ==> *final(hero_pos) == *old(hero_pos),
        mouse_pressed ==> *final(hero_pos) == move_result(
            *map,
            *old(hero_pos),
            sign(mouse_x - old(hero_pos).x),
            sign(mouse_y - old(hero_pos).y),
        ),
{
    if mouse_pressed {
        let dx = step_toward(hero_pos.x, mouse_x);
        let dy = step_toward(hero_pos.y, mouse_y);
        try_move_player(dx, dy, map, hero_pos);
    }
}

} // verus!
