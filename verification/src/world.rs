//! The running world: the map plus the player and the enemies, built fresh
//! from the map on entering the game, and advanced one frame at a time in
//! the fixed order player → enemies → respawn.

use vstd::prelude::*;

verus! {

use crate::MAX_MAP_SIZE;
use crate::TILE_SIZE;
use crate::enemy::enemy_movement;
use crate::enemy::spec_pursue_n;
use crate::map::Coordinates;
use crate::map::Position;
use crate::map::Tile;
use crate::map::TileMap;
use crate::map::spec_half;
use crate::map::lemma_row_major_index;
use crate::player::Key;
use crate::player::check_completion;
use crate::player::player_movement;
use crate::player::spec_player_steps;
use crate::respawn::Mob;
use crate::respawn::RespawnPoint;
use crate::respawn::respawn_check;
use crate::respawn::respawn_event_listener;
use crate::respawn::spec_match_count;
use crate::respawn::spec_reset;

/// The cell with row-major index `k` in a grid of the given dimension.
pub open spec fn spec_cell(size: int, k: int) -> Coordinates {
    Coordinates { x: (k % size) as usize, y: (k / size) as usize }
}

/// A freshly placed entity at a cell: coordinate and continuous position in
/// lock-step, with the respawn snapshot taken right there.
pub open spec fn spec_mob_at(size: int, c: Coordinates) -> Mob {
    let p = Position {
        x: ((c.x - spec_half(size)) * TILE_SIZE) as i64,
        y: ((spec_half(size) - c.y) * TILE_SIZE) as i64,
    };
    Mob { coordinates: c, position: p, respawn: RespawnPoint { translation: p, coordinates: c } }
}

/// The grid's midpoint cell, where the player starts when the map has no
/// Start tile.
pub open spec fn spec_center(size: int) -> Coordinates {
    Coordinates { x: (size / 2) as usize, y: (size / 2) as usize }
}

/// The last Start tile among the first `k` cells in row-major order.
pub open spec fn spec_start_prefix(map: TileMap, k: int) -> Option<Coordinates>
    decreases k,
{
    if k <= 0 {
        None
    } else if map.layout@[k - 1] is Start {
        Some(spec_cell(map.size as int, k - 1))
    } else {
        spec_start_prefix(map, k - 1)
    }
}

/// Where the player spawns: the last Start tile in row-major order, or the
/// grid's midpoint when there is none.
pub open spec fn spec_start_cell(map: TileMap) -> Coordinates {
    match spec_start_prefix(map, map.size * map.size) {
        Some(c) => c,
        None => spec_center(map.size as int),
    }
}

/// The last Goal tile among the first `k` cells in row-major order.
pub open spec fn spec_goal_prefix(map: TileMap, k: int) -> Option<Coordinates>
    decreases k,
{
    if k <= 0 {
        None
    } else if map.layout@[k - 1] is Goal {
        Some(spec_cell(map.size as int, k - 1))
    } else {
        spec_goal_prefix(map, k - 1)
    }
}

/// The cell whose tile is the Goal, if any: the last one in row-major
/// order, as the camera setup sees it.
pub open spec fn spec_goal_cell(map: TileMap) -> Option<Coordinates> {
    spec_goal_prefix(map, map.size * map.size)
}

/// The cells carrying the enemy spawn marker, in row-major order, among
/// the first `k` cells.
pub open spec fn spec_enemy_cells_prefix(map: TileMap, k: int) -> Seq<Coordinates>
    decreases k,
{
    if k <= 0 {
        Seq::empty()
    } else {
        let rest = spec_enemy_cells_prefix(map, k - 1);
        if map.layout@[k - 1] is Enemy {
            rest.push(spec_cell(map.size as int, k - 1))
        } else {
            rest
        }
    }
}

/// All enemy spawn cells, in row-major order.
pub open spec fn spec_enemy_cells(map: TileMap) -> Seq<Coordinates> {
    spec_enemy_cells_prefix(map, map.size * map.size)
}


/// Where one frame's key queue takes the player.
pub open spec fn spec_tick_walk(w: World, keys: Seq<Key>) -> (Coordinates, Position) {
    spec_player_steps(w.map, w.player.coordinates, w.player.position, keys)
}

/// Whether the frame's keys changed the player's coordinate at all: the
/// condition for the single "player moved" signal.
pub open spec fn spec_tick_moved(w: World, keys: Seq<Key>) -> bool {
    spec_tick_walk(w, keys).0 != w.player.coordinates
}

/// The enemies after their pursuit rounds: one round exactly when the
/// player moved this frame.
pub open spec fn spec_tick_pursued(w: World, keys: Seq<Key>) -> Seq<Mob> {
    spec_pursue_n(
        w.map,
        w.enemies@,
        spec_tick_walk(w, keys).0,
        if spec_tick_moved(w, keys) {
            1nat
        } else {
            0nat
        },
    )
}

/// Whether, after movement resolved, some enemy stands on the player's
/// cell: the condition for the respawn signal.
pub open spec fn spec_tick_hit(w: World, keys: Seq<Key>) -> bool {
    spec_match_count(spec_tick_pursued(w, keys), spec_tick_walk(w, keys).0) > 0
}

/// The frame's signals. The goal signal fires exactly in a frame where the
/// player moved and now stands on a Goal tile.
pub open spec fn spec_tick_outcome(w: World, keys: Seq<Key>) -> FrameOutcome {
    let cp = spec_tick_walk(w, keys);
    FrameOutcome {
        player_moved: spec_tick_moved(w, keys),
        goal_reached: spec_tick_moved(w, keys) && w.map.spec_tile(
            cp.0.spec_x() as int,
            cp.0.spec_y() as int,
        ) is Goal,
        respawned: spec_tick_hit(w, keys),
    }
}

/// The player at the end of the frame: where the keys took it, snapped
/// back to its respawn point when an enemy caught it.
pub open spec fn spec_tick_player(w: World, keys: Seq<Key>) -> Mob {
    let cp = spec_tick_walk(w, keys);
    let walked = Mob { coordinates: cp.0, position: cp.1, respawn: w.player.respawn };
    if spec_tick_hit(w, keys) {
        spec_reset(walked)
    } else {
        walked
    }
}

/// The enemies at the end of the frame: pursued, and all snapped back to
/// their respawn points when one caught the player.
pub open spec fn spec_tick_enemies(w: World, keys: Seq<Key>) -> Seq<Mob> {
    if spec_tick_hit(w, keys) {
        spec_tick_pursued(w, keys).map_values(|e: Mob| spec_reset(e))
    } else {
        spec_tick_pursued(w, keys)
    }
}

/// A row-major index decomposes into its column and row.
proof fn lemma_cell_of_index(size: int, x: int, y: int)
    requires
        0 < size,
        0 <= x < size,
        0 <= y < size,
    ensures
        spec_cell(size, y * size + x) == (Coordinates { x: x as usize, y: y as usize }),
{
    vstd::arithmetic::div_mod::lemma_fundamental_div_mod_converse(y * size + x, size, y, x);
}

/// Places one entity at a cell, its respawn snapshot taken there.
fn place_mob(x: usize, y: usize, half: usize, size: usize) -> (m: Mob)
    requires
        half == size / 2,
        x < size,
        y < size,
        size <= MAX_MAP_SIZE,
    ensures
        m == spec_mob_at(size as int, Coordinates { x, y }),
        m.wf(size as int),
{
    let px = (x as i64 - half as i64) * TILE_SIZE;
    let py = (half as i64 - y as i64) * TILE_SIZE;
    let position = Position { x: px, y: py };
    let coordinates = Coordinates::new(x, y);
    Mob { coordinates, position, respawn: RespawnPoint::new(position, coordinates) }
}

/// The world of one running game: read-only map, the player, and the
/// enemies, each entity in lock-step with its continuous position.
#[derive(Debug)]
pub struct World {
    pub map: TileMap,
    pub player: Mob,
    pub enemies: Vec<Mob>,
}

/// What one simulated frame reported: the frame-scoped signals, drained
/// within the frame that produced them.
#[derive(Clone, Copy, Debug, PartialEq, Eq, Structural)]
pub struct FrameOutcome {
    pub player_moved: bool,
    pub goal_reached: bool,
    pub respawned: bool,
}

impl World {
    /// A world fit to simulate: a square map of workable dimension, every
    /// entity inside it with positions in lock-step.
    pub open spec fn wf(self) -> bool {
        &&& self.map.wf()
        &&& 1 <= self.map.spec_size() <= MAX_MAP_SIZE
        &&& self.player.wf(self.map.spec_size() as int)
        &&& forall|i: int|
            0 <= i < self.enemies@.len() ==> self.enemies@[i].wf(self.map.spec_size() as int)
    }

    /// Builds a fresh world from a loaded map. Tiles are scanned in
    /// row-major order: the player spawns on the last Start tile (at the
    /// grid's midpoint when there is none), one enemy spawns on each
    /// Enemy-marked tile, and every entity's respawn point is captured at
    /// its spawn placement. A level needs at least one cell to place the
    /// player in.
    #[verifier::loop_isolation(false)]
    pub fn build(map: TileMap) -> (w: World)
        requires
            map.wf(),
            1 <= map.spec_size() <= MAX_MAP_SIZE,
        ensures
            w.map == map,
            w.player == spec_mob_at(map.spec_size() as int, spec_start_cell(map)),
            w.enemies@ == spec_enemy_cells(map).map_values(
                |c: Coordinates| spec_mob_at(map.spec_size() as int, c),
            ),
            w.wf(),
    {
        let size = map.size();
        let half = size / 2;
        let ghost placer = |c: Coordinates| spec_mob_at(size as int, c);
        let mut player: Mob = place_mob(half, half, half, size);
        let mut enemies: Vec<Mob> = Vec::new();
        let mut y: usize = 0;
        proof {
            assert(spec_enemy_cells_prefix(map, 0).map_values(placer) =~= Seq::<Mob>::empty());
        }
        while y < size
            invariant
                y <= size,
                player == (match spec_start_prefix(map, y * size) {
                    Some(c) => spec_mob_at(size as int, c),
                    None => spec_mob_at(size as int, spec_center(size as int)),
                }),
                player.wf(size as int),
                enemies@ == spec_enemy_cells_prefix(map, y * size).map_values(placer),
                forall|i: int| 0 <= i < enemies@.len() ==> enemies@[i].wf(size as int),
            decreases size - y,
        {
            let mut x: usize = 0;
            while x < size
                invariant
                    x <= size,
                    player == (match spec_start_prefix(map, y * size + x) {
                        Some(c) => spec_mob_at(size as int, c),
                        None => spec_mob_at(size as int, spec_center(size as int)),
                    }),
                    player.wf(size as int),
                    enemies@ == spec_enemy_cells_prefix(map, y * size + x).map_values(placer),
                    forall|i: int| 0 <= i < enemies@.len() ==> enemies@[i].wf(size as int),
                decreases size - x,
            {
                proof {
                    lemma_row_major_index(size as int, x as int, y as int);
                    lemma_cell_of_index(size as int, x as int, y as int);
                }
                let tile = map.tile_at(x, y);
                match tile {
                    Tile::Start => {
                        player = place_mob(x, y, half, size);
                    },
                    Tile::Enemy => {
                        enemies.push(place_mob(x, y, half, size));
                        proof {
                            assert(enemies@ =~= spec_enemy_cells_prefix(
                                map,
                                y * size + x + 1,
                            ).map_values(placer));
                        }
                    },
                    _ => {},
                }
                x = x + 1;
            }
            proof {
                assert(y * size + size == (y + 1) * size) by (nonlinear_arith);
            }
            y = y + 1;
        }
        World { map, player, enemies }
    }

    /// The cell the camera starts on: the last Goal tile in row-major
    /// order, if the map has one.
    #[verifier::loop_isolation(false)]
    pub fn find_goal(map: &TileMap) -> (r: Option<Coordinates>)
        requires
            map.wf(),
        ensures
            r == spec_goal_cell(*map),
    {
        let size = map.size();
        let mut found: Option<Coordinates> = None;
        let mut y: usize = 0;
        while y < size
            invariant
                y <= size,
                found == spec_goal_prefix(*map, y * size),
            decreases size - y,
        {
            let mut x: usize = 0;
            while x < size
                invariant
                    x <= size,
                    found == spec_goal_prefix(*map, y * size + x),
                decreases size - x,
            {
                proof {
                    lemma_row_major_index(size as int, x as int, y as int);
                    lemma_cell_of_index(size as int, x as int, y as int);
                }
                if matches!(map.tile_at(x, y), Tile::Goal) {
                    found = Some(Coordinates::new(x, y));
                }
                x = x + 1;
            }
            proof {
                assert(y * size + size == (y + 1) * size) by (nonlinear_arith);
            }
            y = y + 1;
        }
        found
    }

    /// Runs one simulated frame in the fixed cooperative order: the player
    /// processes the frame's key edges, a goal check observes where the
    /// player now stands, each "player moved" signal drives one enemy
    /// pursuit round, and a player/enemy coincidence triggers the global
    /// respawn — all before the frame ends.
    pub fn tick(&mut self, keys: &Vec<Key>) -> (out: FrameOutcome)
        requires
            old(self).wf(),
        ensures
            final(self).wf(),
            final(self).map == old(self).map,
            out == spec_tick_outcome(*old(self), keys@),
            final(self).player == spec_tick_player(*old(self), keys@),
            final(self).enemies@ == spec_tick_enemies(*old(self), keys@),
    {
        let events = player_movement(&self.map, &mut self.player, keys);
        let moved = events.len() > 0;
        let goal_reached = moved && check_completion(&self.map, &self.player.coordinates);
        enemy_movement(&self.map, &mut self.enemies, &self.player.coordinates, &events);
        let respawn_events = respawn_check(&self.player.coordinates, &self.enemies);
        let respawned = respawn_events.len() > 0;
        respawn_event_listener(&respawn_events, &mut self.player, &mut self.enemies);
        proof {
            if respawned {
                assert forall|i: int| 0 <= i < self.enemies@.len() implies self.enemies@[i].wf(
                    self.map.spec_size() as int,
                ) by {
                }
            }
        }
        FrameOutcome { player_moved: moved, goal_reached, respawned }
    }
}

} // verus!
