//! Enemy pursuit: one greedy step per enemy for each "player moved" signal,
//! along the dominant axis toward the player, under the same grid-movement
//! rule as the player.

use vstd::prelude::*;

verus! {

use crate::MAX_MAP_SIZE;
use crate::map::Coordinates;
use crate::map::TileMap;
use crate::map::step_coord;
use crate::map::step_position;
use crate::player::PlayerMovementEvent;
use crate::respawn::Mob;

pub open spec fn spec_abs(i: int) -> int {
    if i < 0 {
        -i
    } else {
        i
    }
}

/// One greedy pursuit step: with `dx = enemy.x - player.x` and
/// `dy = enemy.y - player.y`, the axis with the larger absolute delta is
/// chosen — ties go to the x axis — and the enemy attempts one cell toward
/// the player along it; an enemy level with the player on the chosen axis
/// stays put, and a blocked step simply does not move.
pub open spec fn spec_enemy_step(map: TileMap, e: Mob, player: Coordinates) -> Mob {
    let dx = e.coordinates.x - player.x;
    let dy = e.coordinates.y - player.y;
    if spec_abs(dx) >= spec_abs(dy) {
        if dx > 0 {
            Mob {
                coordinates: step_coord(map, e.coordinates, -1, 0),
                position: step_position(map, e.coordinates, e.position, -1, 0),
                respawn: e.respawn,
            }
        } else if dx < 0 {
            Mob {
                coordinates: step_coord(map, e.coordinates, 1, 0),
                position: step_position(map, e.coordinates, e.position, 1, 0),
                respawn: e.respawn,
            }
        } else {
            e
        }
    } else {
        if dy > 0 {
            Mob {
                coordinates: step_coord(map, e.coordinates, 0, -1),
                position: step_position(map, e.coordinates, e.position, 0, -1),
                respawn: e.respawn,
            }
        } else {
            Mob {
                coordinates: step_coord(map, e.coordinates, 0, 1),
                position: step_position(map, e.coordinates, e.position, 0, 1),
                respawn: e.respawn,
            }
        }
    }
}

/// Every enemy advanced by one greedy step toward the player.
pub open spec fn spec_pursue(map: TileMap, enemies: Seq<Mob>, player: Coordinates) -> Seq<Mob> {
    enemies.map_values(|e: Mob| spec_enemy_step(map, e, player))
}

/// The enemies after `n` pursuit rounds, one per "player moved" signal.
pub open spec fn spec_pursue_n(map: TileMap, enemies: Seq<Mob>, player: Coordinates, n: nat) -> Seq<
    Mob,
>
    decreases n,
{
    if n == 0 {
        enemies
    } else {
        spec_pursue(map, spec_pursue_n(map, enemies, player, (n - 1) as nat), player)
    }
}

/// Advances one enemy by one greedy pursuit step.
pub fn enemy_step(enemy: &mut Mob, player: &Coordinates, map: &TileMap)
    requires
        map.wf(),
        map.spec_size() <= MAX_MAP_SIZE,
        old(enemy).wf(map.spec_size() as int),
        player.in_bounds(map.spec_size() as int),
    ensures
        *final(enemy) == spec_enemy_step(*map, *old(enemy), *player),
        final(enemy).wf(map.spec_size() as int),
        final(enemy).respawn == old(enemy).respawn,
{
    let delta_x = enemy.coordinates.x() as i64 - player.x() as i64;
    let delta_y = enemy.coordinates.y() as i64 - player.y() as i64;
    let abs_x = if delta_x < 0 {
        -delta_x
    } else {
        delta_x
    };
    let abs_y = if delta_y < 0 {
        -delta_y
    } else {
        delta_y
    };
    if abs_x >= abs_y {
        if delta_x > 0 {
            enemy.coordinates.move_left(&mut enemy.position, map);
        } else if delta_x < 0 {
            enemy.coordinates.move_right(&mut enemy.position, map);
        }
    } else {
        if delta_y > 0 {
            enemy.coordinates.move_up(&mut enemy.position, map);
        } else {
            enemy.coordinates.move_down(&mut enemy.position, map);
        }
    }
}

/// Advances every enemy by one pursuit step per "player moved" signal in
/// the frame's queue; with no signal the enemies do not move at all.
#[verifier::loop_isolation(false)]
pub fn enemy_movement(
    map: &TileMap,
    enemies: &mut Vec<Mob>,
    player: &Coordinates,
    events: &Vec<PlayerMovementEvent>,
)
    requires
        map.wf(),
        map.spec_size() <= MAX_MAP_SIZE,
        player.in_bounds(map.spec_size() as int),
        forall|i: int|
            0 <= i < old(enemies)@.len() ==> old(enemies)@[i].wf(map.spec_size() as int),
    ensures
        final(enemies)@ == spec_pursue_n(*map, old(enemies)@, *player, events@.len()),
        final(enemies)@.len() == old(enemies)@.len(),
        forall|i: int|
            0 <= i < final(enemies)@.len() ==> final(enemies)@[i].wf(map.spec_size() as int),
{
    let rounds = events.len();
    let mut k: usize = 0;
    while k < rounds
        invariant
            k <= rounds,
            enemies@.len() == old(enemies)@.len(),
            enemies@ == spec_pursue_n(*map, old(enemies)@, *player, k as nat),
            forall|i: int| 0 <= i < enemies@.len() ==> enemies@[i].wf(map.spec_size() as int),
        decreases rounds - k,
    {
        let n = enemies.len();
        let mut stepped: Vec<Mob> = Vec::new();
        let mut i: usize = 0;
        while i < n
            invariant
                i <= n,
                n == enemies@.len(),
                forall|j: int| 0 <= j < enemies@.len() ==> enemies@[j].wf(map.spec_size() as int),
                stepped@ =~= spec_pursue(*map, enemies@, *player).take(i as int),
                forall|j: int| 0 <= j < stepped@.len() ==> stepped@[j].wf(map.spec_size() as int),
            decreases n - i,
        {
            let mut e = enemies[i];
            enemy_step(&mut e, player, map);
            stepped.push(e);
            proof {
                assert(stepped@ =~= spec_pursue(*map, enemies@, *player).take(i + 1));
            }
            i = i + 1;
        }
        proof {
            assert(spec_pursue(*map, enemies@, *player).take(n as int) =~= spec_pursue(
                *map,
                enemies@,
                *player,
            ));
        }
        *enemies = stepped;
        k = k + 1;
    }
}

} // verus!
