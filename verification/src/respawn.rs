//! Trackable entities and the collision-triggered respawn: when the player
//! and an enemy share a cell, every tracked entity snaps back to its
//! recorded spawn point before the next frame is processed.

use vstd::prelude::*;

verus! {

use crate::map::Coordinates;
use crate::map::Position;
use crate::map::in_lockstep;

/// A frame-scoped signal that a respawn is due; produced by
/// [`respawn_check`] and drained by [`respawn_event_listener`].
#[derive(Clone, Copy, Debug)]
pub struct RespawnEvent;

/// An entity's immutable snapshot of its spawn position, captured once at
/// world-build time and never mutated.
#[derive(Clone, Copy, Debug, PartialEq, Eq, Structural)]
pub struct RespawnPoint {
    pub translation: Position,
    pub coordinates: Coordinates,
}

impl RespawnPoint {
    pub fn new(translation: Position, coordinates: Coordinates) -> (r: RespawnPoint)
        ensures
            r.translation == translation,
            r.coordinates == coordinates,
    {
        Self { translation, coordinates }
    }
}

/// One mobile entity: its grid coordinate and continuous position, kept in
/// lock-step, plus its respawn snapshot.
#[derive(Clone, Copy, Debug, PartialEq, Eq, Structural)]
pub struct Mob {
    pub coordinates: Coordinates,
    pub position: Position,
    pub respawn: RespawnPoint,
}

impl Mob {
    /// Both the current and the recorded spawn placement lie inside the
    /// grid, each with its continuous position in lock-step.
    pub open spec fn wf(self, size: int) -> bool {
        &&& self.coordinates.in_bounds(size)
        &&& in_lockstep(self.coordinates, self.position, size)
        &&& self.respawn.coordinates.in_bounds(size)
        &&& in_lockstep(self.respawn.coordinates, self.respawn.translation, size)
    }
}

/// The entity snapped back to its respawn point; the snapshot itself is
/// kept.
pub open spec fn spec_reset(m: Mob) -> Mob {
    Mob { coordinates: m.respawn.coordinates, position: m.respawn.translation, respawn: m.respawn }
}

/// Resetting an entity twice is the same as resetting it once.
pub proof fn lemma_reset_idempotent(m: Mob)
    ensures
        spec_reset(spec_reset(m)) == spec_reset(m),
{
}

/// How many of the enemies stand exactly on the player's cell.
pub open spec fn spec_match_count(enemies: Seq<Mob>, player: Coordinates) -> int
    decreases enemies.len(),
{
    if enemies.len() == 0 {
        0
    } else {
        spec_match_count(enemies.drop_last(), player) + if enemies.last().coordinates == player {
            1int
        } else {
            0int
        }
    }
}

/// The count of coinciding enemies is nonnegative, and positive exactly
/// when some enemy stands on the player's cell.
pub proof fn lemma_match_count_pos(enemies: Seq<Mob>, player: Coordinates)
    ensures
        spec_match_count(enemies, player) >= 0,
        spec_match_count(enemies, player) > 0 <==> exists|i: int|
            0 <= i < enemies.len() && enemies[i].coordinates == player,
    decreases enemies.len(),
{
    if enemies.len() == 0 {
    } else {
        lemma_match_count_pos(enemies.drop_last(), player);
        if enemies.last().coordinates == player {
            assert(enemies[enemies.len() - 1].coordinates == player);
        } else {
            if spec_match_count(enemies.drop_last(), player) > 0 {
                let i = choose|i: int|
                    0 <= i < enemies.drop_last().len() && enemies.drop_last()[i].coordinates
                        == player;
                assert(enemies[i].coordinates == player);
            }
            if exists|i: int| 0 <= i < enemies.len() && enemies[i].coordinates == player {
                let i = choose|i: int|
                    0 <= i < enemies.len() && enemies[i].coordinates == player;
                assert(enemies.drop_last()[i].coordinates == player);
            }
        }
    }
}

/// Scans for player/enemy coincidence after movement has resolved: one
/// respawn signal is emitted for every enemy standing on the player's cell,
/// so signals are emitted exactly when some enemy touches the player.
pub fn respawn_check(player: &Coordinates, enemies: &Vec<Mob>) -> (events: Vec<RespawnEvent>)
    ensures
        events@.len() == spec_match_count(enemies@, *player),
        events@.len() > 0 <==> exists|i: int|
            0 <= i < enemies@.len() && enemies@[i].coordinates == *player,
{
    let mut events: Vec<RespawnEvent> = Vec::new();
    let n = enemies.len();
    let mut i: usize = 0;
    proof {
        assert(enemies@.take(0) =~= Seq::<Mob>::empty());
    }
    while i < n
        invariant
            i <= n,
            n == enemies@.len(),
            events@.len() == spec_match_count(enemies@.take(i as int), *player),
        decreases n - i,
    {
        proof {
            assert(enemies@.take(i + 1).drop_last() =~= enemies@.take(i as int));
            assert(enemies@.take(i + 1).last() == enemies@[i as int]);
            lemma_match_count_pos(enemies@.take(i as int), *player);
        }
        if enemies[i].coordinates == *player {
            events.push(RespawnEvent);
        }
        i = i + 1;
    }
    proof {
        assert(enemies@.take(n as int) =~= enemies@);
        lemma_match_count_pos(enemies@, *player);
    }
    events
}

/// Consumes the frame's respawn signals: any signal at all performs the
/// global hard reset, overwriting every tracked entity's coordinate and
/// continuous position from its own respawn snapshot — however far each had
/// moved. Without a signal nothing changes.
pub fn respawn_event_listener(events: &Vec<RespawnEvent>, player: &mut Mob, enemies: &mut Vec<Mob>)
    ensures
        events@.len() > 0 ==> *final(player) == spec_reset(*old(player)) && final(enemies)@
            == old(enemies)@.map_values(|m: Mob| spec_reset(m)),
        events@.len() == 0 ==> *final(player) == *old(player) && final(enemies)@ == old(
            enemies,
        )@,
{
    if events.len() > 0 {
        *player = Mob {
            coordinates: player.respawn.coordinates,
            position: player.respawn.translation,
            respawn: player.respawn,
        };
        let n = enemies.len();
        let mut reset: Vec<Mob> = Vec::new();
        let mut i: usize = 0;
        while i < n
            invariant
                i <= n,
                n == enemies@.len(),
                reset@ =~= enemies@.take(i as int).map_values(|m: Mob| spec_reset(m)),
            decreases n - i,
        {
            let e = enemies[i];
            reset.push(Mob {
                coordinates: e.respawn.coordinates,
                position: e.respawn.translation,
                respawn: e.respawn,
            });
            proof {
                assert(reset@ =~= enemies@.take(i + 1).map_values(|m: Mob| spec_reset(m)));
            }
            i = i + 1;
        }
        proof {
            assert(enemies@.take(n as int) =~= enemies@);
            assert(reset@ =~= enemies@.map_values(|m: Mob| spec_reset(m)));
        }
        *enemies = reset;
    }
}

} // verus!
