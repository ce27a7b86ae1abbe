//! The player controller: per-frame key edges become at most one movement
//! call per axis per key, and a single "player moved" signal per frame,
//! plus the goal-completion check.

use vstd::prelude::*;

verus! {

use crate::MAX_MAP_SIZE;
use crate::map::Coordinates;
use crate::map::Position;
use crate::map::Tile;
use crate::map::TileMap;
use crate::map::step_coord;
use crate::map::step_position;
use crate::respawn::Mob;

/// A frame-scoped signal that the player's coordinate changed this frame;
/// it is what triggers one enemy pursuit step.
#[derive(Clone, Copy, Debug)]
pub struct PlayerMovementEvent;

/// A direction key that transitioned to "pressed" during the current frame,
/// or the abort key. Held keys do not repeat; the host reports each edge
/// once.
#[derive(Clone, Copy, Debug, PartialEq, Eq, Structural)]
pub enum Key {
    W,
    A,
    S,
    D,
    Up,
    Down,
    Left,
    Right,
    Escape,
}

/// Horizontal intent of a key: left keys give -1, right keys 1, others 0.
pub open spec fn spec_delta_x(code: Key) -> int {
    match code {
        Key::A | Key::Left => -1,
        Key::D | Key::Right => 1,
        _ => 0,
    }
}

/// Vertical intent of a key: up keys give -1 (toward smaller grid `y`),
/// down keys 1, others 0.
pub open spec fn spec_delta_y(code: Key) -> int {
    match code {
        Key::W | Key::Up => -1,
        Key::S | Key::Down => 1,
        _ => 0,
    }
}

/// Maps a key to its `(dx, dy)` unit intent.
pub fn delta_from_code(code: Key) -> (delta: (i8, i8))
    ensures
        delta.0 as int == spec_delta_x(code),
        delta.1 as int == spec_delta_y(code),
{
    let delta_x: i8 = match code {
        Key::A | Key::Left => -1,
        Key::D | Key::Right => 1,
        _ => 0,
    };
    let delta_y: i8 = match code {
        Key::W | Key::Up => -1,
        Key::S | Key::Down => 1,
        _ => 0,
    };
    (delta_x, delta_y)
}

/// The placement after one key: the horizontal component is attempted
/// first, then the vertical component, each through the shared grid step.
pub open spec fn spec_key_step(map: TileMap, c: Coordinates, p: Position, code: Key) -> (
    Coordinates,
    Position,
) {
    let dx = spec_delta_x(code);
    let dy = spec_delta_y(code);
    let cp1 = if dx != 0 {
        (step_coord(map, c, dx, 0), step_position(map, c, p, dx, 0))
    } else {
        (c, p)
    };
    let cp2 = if dy != 0 {
        (step_coord(map, cp1.0, 0, dy), step_position(map, cp1.0, cp1.1, 0, dy))
    } else {
        cp1
    };
    cp2
}

/// The placement after a whole frame's queue of key edges, applied in
/// order.
pub open spec fn spec_player_steps(
    map: TileMap,
    c: Coordinates,
    p: Position,
    keys: Seq<Key>,
) -> (Coordinates, Position)
    decreases keys.len(),
{
    if keys.len() == 0 {
        (c, p)
    } else {
        let cp = spec_key_step(map, c, p, keys[0]);
        spec_player_steps(map, cp.0, cp.1, keys.drop_first())
    }
}

/// Processes the frame's queued key edges: for each key, one movement call
/// per nonzero axis component (horizontal first), all against the shared
/// grid-movement rule. After all keys are processed, exactly one
/// "player moved" signal is emitted if and only if the coordinate differs
/// from its value at the start of the frame.
#[verifier::loop_isolation(false)]
pub fn player_movement(map: &TileMap, player: &mut Mob, keys: &Vec<Key>) -> (events: Vec<
    PlayerMovementEvent,
>)
    requires
        map.wf(),
        map.spec_size() <= MAX_MAP_SIZE,
        old(player).wf(map.spec_size() as int),
    ensures
        final(player).wf(map.spec_size() as int),
        final(player).respawn == old(player).respawn,
        (final(player).coordinates, final(player).position) == spec_player_steps(
            *map,
            old(player).coordinates,
            old(player).position,
            keys@,
        ),
        events@.len() == (if final(player).coordinates != old(player).coordinates {
            1int
        } else {
            0int
        }),
{
    let initial: Coordinates = player.coordinates;
    let n = keys.len();
    let mut i: usize = 0;
    proof {
        assert(keys@.skip(0) =~= keys@);
    }
    while i < n
        invariant
            i <= n,
            player.wf(map.spec_size() as int),
            player.respawn == old(player).respawn,
            spec_player_steps(*map, old(player).coordinates, old(player).position, keys@)
                == spec_player_steps(*map, player.coordinates, player.position, keys@.skip(i as int)),
        decreases n - i,
    {
        let ghost suffix = keys@.skip(i as int);
        let ghost c0 = player.coordinates;
        let ghost p0 = player.position;
        proof {
            assert(suffix[0] == keys@[i as int]);
            assert(suffix.drop_first() =~= keys@.skip(i + 1));
        }
        let code = keys[i];
        let (delta_x, delta_y) = delta_from_code(code);
        if delta_x > 0 {
            player.coordinates.move_right(&mut player.position, map);
        } else if delta_x < 0 {
            player.coordinates.move_left(&mut player.position, map);
        }
        if delta_y > 0 {
            player.coordinates.move_down(&mut player.position, map);
        } else if delta_y < 0 {
            player.coordinates.move_up(&mut player.position, map);
        }
        proof {
            assert((player.coordinates, player.position) == spec_key_step(*map, c0, p0, code));
        }
        i = i + 1;
    }
    proof {
        assert(keys@.skip(n as int) =~= Seq::<Key>::empty());
    }
    let mut events: Vec<PlayerMovementEvent> = Vec::new();
    if player.coordinates != initial {
        events.push(PlayerMovementEvent);
    }
    events
}

/// Observes the player's coordinate after movement: true exactly when the
/// tile there is the goal — the only trigger for returning to the main
/// menu from the running game.
pub fn check_completion(map: &TileMap, player: &Coordinates) -> (r: bool)
    requires
        map.wf(),
        player.in_bounds(map.spec_size() as int),
    ensures
        r == (map.spec_tile(player.spec_x() as int, player.spec_y() as int) is Goal),
{
    matches!(map.tile_at(player.x(), player.y()), Tile::Goal)
}

} // verus!
