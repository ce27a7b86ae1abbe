//! The top-level state machine: main menu → level select → in-game →
//! back to the main menu on reaching the goal or aborting. Every
//! transition out of the running game tears the world down entirely, and
//! every entry builds it fresh from the selected level's map.

use vstd::prelude::*;

verus! {

use crate::MAX_MAP_SIZE;
use crate::level::LevelManager;
use crate::map::LoadError;
use crate::map::TileMap;
use crate::map::row_fields;
use crate::map::spec_field_tile;
use crate::map::spec_load_error;
use crate::player::Key;
use crate::world::FrameOutcome;
use crate::world::World;
use crate::world::spec_enemy_cells;
use crate::world::spec_mob_at;
use crate::world::spec_start_cell;
use crate::world::spec_tick_enemies;
use crate::world::spec_tick_outcome;
use crate::world::spec_tick_player;

/// Which menu screen is showing.
#[derive(Debug, Clone, Copy, Eq, PartialEq, Structural, Hash)]
pub enum MenuState {
    Main,
    Level,
}

/// The top-level application state.
#[derive(Debug, Clone, Copy, Eq, PartialEq, Structural, Hash)]
pub enum AppState {
    Menu(MenuState),
    InGame,
}

/// The whole application: the current state, the level catalog, and the
/// world while a game is running.
#[derive(Debug)]
pub struct Game {
    pub state: AppState,
    pub levels: LevelManager,
    pub world: Option<World>,
}

impl Game {
    /// The world exists exactly while the game is running, and is then
    /// fit to simulate; in every menu state it has been torn down.
    pub open spec fn wf(self) -> bool {
        &&& self.state is InGame ==> (self.world matches Some(w) && w.wf())
        &&& self.state is Menu ==> self.world is None
    }

    /// Starts at the main menu with no world built.
    pub fn new(levels: LevelManager) -> (g: Game)
        ensures
            g.state == AppState::Menu(MenuState::Main),
            g.levels == levels,
            g.world is None,
            g.wf(),
    {
        Game { state: AppState::Menu(MenuState::Main), levels, world: None }
    }

    /// One round of menu/abort input. At the main menu, the play button
    /// opens the level select. At the level select, the abort key returns
    /// to the main menu, and choosing a level records it and asks the host
    /// to read that level's file (the returned index). In the running
    /// game, the abort key returns to the main menu and tears the world
    /// down. The host presents only valid level indices.
    pub fn update_app_state(
        &mut self,
        play_pressed: bool,
        escape_pressed: bool,
        level_clicked: Option<usize>,
    ) -> (load: Option<usize>)
        requires
            old(self).wf(),
            level_clicked matches Some(i) ==> i < old(self).levels.spec_len(),
        ensures
            final(self).wf(),
            final(self).levels.paths == old(self).levels.paths,
            match old(self).state {
                AppState::Menu(MenuState::Main) => {
                    &&& load is None
                    &&& *final(self) == (Game {
                        state: if play_pressed {
                            AppState::Menu(MenuState::Level)
                        } else {
                            AppState::Menu(MenuState::Main)
                        },
                        ..*old(self)
                    })
                },
                AppState::Menu(MenuState::Level) => {
                    if escape_pressed {
                        &&& load is None
                        &&& *final(self) == (Game {
                            state: AppState::Menu(MenuState::Main),
                            ..*old(self)
                        })
                    } else {
                        match level_clicked {
                            Some(i) => {
                                &&& load == Some(i)
                                &&& final(self).state == old(self).state
                                &&& final(self).world == old(self).world
                                &&& final(self).levels.current == i
                            },
                            None => {
                                &&& load is None
                                &&& *final(self) == *old(self)
                            },
                        }
                    }
                },
                AppState::InGame => {
                    if escape_pressed {
                        &&& load is None
                        &&& final(self).state == AppState::Menu(MenuState::Main)
                        &&& final(self).world is None
                        &&& final(self).levels == old(self).levels
                    } else {
                        &&& load is None
                        &&& *final(self) == *old(self)
                    }
                },
            },
    {
        match self.state {
            AppState::Menu(MenuState::Main) => {
                if play_pressed {
                    self.state = AppState::Menu(MenuState::Level);
                }
                None
            },
            AppState::Menu(MenuState::Level) => {
                if escape_pressed {
                    self.state = AppState::Menu(MenuState::Main);
                    None
                } else {
                    match level_clicked {
                        Some(index) => {
                            self.levels.set_level(index);
                            Some(index)
                        },
                        None => None,
                    }
                }
            },
            AppState::InGame => {
                if escape_pressed {
                    self.state = AppState::Menu(MenuState::Main);
                    self.world = None;
                }
                None
            },
        }
    }

    /// Enters the running game: parses the level contents the host read
    /// for the recorded selection, builds the world fresh from the map,
    /// and switches to the in-game state. A failed parse changes nothing
    /// and hands the error back for the host to decide. A level needs at
    /// least one row, and no more than the engine's dimension limit.
    pub fn enter_game(&mut self, rows: &Vec<Vec<u8>>) -> (r: Result<(), LoadError>)
        requires
            old(self).wf(),
            1 <= rows@.len() <= MAX_MAP_SIZE,
        ensures
            final(self).wf(),
            final(self).levels == old(self).levels,
            match r {
                Ok(_) => {
                    &&& spec_load_error(rows.deep_view(), rows@.len() as int) is None
                    &&& final(self).state == AppState::InGame
                    &&& final(self).world matches Some(w) && {
                        let size = rows@.len() as int;
                        &&& w.wf()
                        &&& w.map.spec_size() == rows@.len()
                        &&& forall|x: int, y: int|
                            0 <= x < size && 0 <= y < size ==> w.map.spec_tile(x, y)
                                == spec_field_tile(row_fields(rows.deep_view()[y])[x])->Some_0
                        &&& w.player == spec_mob_at(size, spec_start_cell(w.map))
                        &&& w.enemies@ == spec_enemy_cells(w.map).map_values(
                            |c: crate::map::Coordinates| spec_mob_at(size, c),
                        )
                    }
                },
                Err(e) => {
                    &&& spec_load_error(rows.deep_view(), rows@.len() as int) == Some(e)
                    &&& *final(self) == *old(self)
                },
            },
    {
        match TileMap::load(rows) {
            Ok(map) => {
                let world = World::build(map);
                self.world = Some(world);
                self.state = AppState::InGame;
                Ok(())
            },
            Err(e) => Err(e),
        }
    }

    /// Runs one frame of the running game and applies the goal
    /// transition: a frame whose goal signal fired returns to the main
    /// menu and tears the world down; any other frame stays in the game
    /// with the world advanced by exactly that frame.
    pub fn run_frame(&mut self, keys: &Vec<Key>) -> (out: FrameOutcome)
        requires
            old(self).wf(),
            old(self).state is InGame,
        ensures
            final(self).wf(),
            final(self).levels == old(self).levels,
            ({
                let w0 = old(self).world->Some_0;
                &&& out == spec_tick_outcome(w0, keys@)
                &&& out.goal_reached ==> final(self).state == AppState::Menu(MenuState::Main)
                    && final(self).world is None
                &&& !out.goal_reached ==> {
                    &&& final(self).state == AppState::InGame
                    &&& final(self).world matches Some(w) && w.map == w0.map && w.player
                        == spec_tick_player(w0, keys@) && w.enemies@ == spec_tick_enemies(
                        w0,
                        keys@,
                    )
                }
            }),
    {
        let out = match &mut self.world {
            Some(world) => world.tick(keys),
            // in the running game the world exists; this arm is dead
            None => {
                return FrameOutcome { player_moved: false, goal_reached: false, respawned: false };
            },
        };
        if out.goal_reached {
            self.state = AppState::Menu(MenuState::Main);
            self.world = None;
        }
        out
    }
}

/// State teardown: in any well-formed application state outside the
/// running game, no world — and so no entity referencing the previous
/// map — remains.
pub proof fn lemma_menu_has_no_world(g: Game)
    requires
        g.wf(),
        g.state is Menu,
    ensures
        g.world is None,
{
}

} // verus!
