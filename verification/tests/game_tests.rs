use move_fast::game::{AppState, Game, MenuState};
use move_fast::level::LevelManager;
use move_fast::map::LoadError;
use move_fast::player::Key;

fn rows(lines: &[&str]) -> Vec<Vec<u8>> {
    lines.iter().map(|s| s.as_bytes().to_vec()).collect()
}

fn names(list: &[&str]) -> Vec<Vec<u8>> {
    list.iter().map(|s| s.as_bytes().to_vec()).collect()
}

#[test]
fn catalog_sorts_names() {
    let catalog = LevelManager::new(names(&["maze.csv", "arena.csv", "halls.csv"]));
    assert_eq!(catalog.len(), 3);
    let sorted: Vec<&[u8]> = catalog.iter().iter().map(|n| n.as_slice()).collect();
    assert_eq!(sorted, vec![&b"arena.csv"[..], b"halls.csv", b"maze.csv"]);
}

#[test]
fn catalog_keeps_duplicates_and_starts_at_first() {
    let mut catalog = LevelManager::new(names(&["b", "a", "b"]));
    assert_eq!(catalog.len(), 3);
    assert_eq!(catalog.current_path().as_slice(), b"a");
    catalog.set_level(2);
    assert_eq!(catalog.current_path().as_slice(), b"b");
}

#[test]
fn catalog_may_be_empty() {
    let catalog = LevelManager::new(names(&[]));
    assert_eq!(catalog.len(), 0);
}

#[test]
fn catalog_load_parses_selected_contents() {
    let catalog = LevelManager::new(names(&["only.csv"]));
    let map = catalog.load(&rows(&["0,2", "0,0"])).unwrap();
    assert_eq!(map.size(), 2);
    let err = catalog.load(&rows(&["0,2", "0"])).unwrap_err();
    assert_eq!(err, LoadError::ShapeMismatch);
}

#[test]
fn play_opens_level_select() {
    let mut game = Game::new(LevelManager::new(names(&["a.csv"])));
    assert_eq!(game.state, AppState::Menu(MenuState::Main));
    let load = game.update_app_state(true, false, None);
    assert_eq!(load, None);
    assert_eq!(game.state, AppState::Menu(MenuState::Level));
}

#[test]
fn main_menu_ignores_other_input() {
    let mut game = Game::new(LevelManager::new(names(&["a.csv"])));
    let load = game.update_app_state(false, true, None);
    assert_eq!(load, None);
    assert_eq!(game.state, AppState::Menu(MenuState::Main));
}

#[test]
fn selecting_level_requests_its_contents() {
    let mut game = Game::new(LevelManager::new(names(&["a.csv", "b.csv"])));
    game.update_app_state(true, false, None);
    let load = game.update_app_state(false, false, Some(1));
    assert_eq!(load, Some(1));
    assert_eq!(game.levels.current_path().as_slice(), b"b.csv");
    assert_eq!(game.state, AppState::Menu(MenuState::Level));
}

#[test]
fn escape_leaves_level_select() {
    let mut game = Game::new(LevelManager::new(names(&["a.csv"])));
    game.update_app_state(true, false, None);
    let load = game.update_app_state(false, true, None);
    assert_eq!(load, None);
    assert_eq!(game.state, AppState::Menu(MenuState::Main));
}

#[test]
fn entering_game_builds_world() {
    let mut game = Game::new(LevelManager::new(names(&["a.csv"])));
    game.update_app_state(true, false, None);
    game.update_app_state(false, false, Some(0));
    game.enter_game(&rows(&["2,0", "0,4"])).unwrap();
    assert_eq!(game.state, AppState::InGame);
    let world = game.world.as_ref().unwrap();
    assert_eq!(world.map.size(), 2);
    assert_eq!(
        (world.player.coordinates.x(), world.player.coordinates.y()),
        (0, 0)
    );
    assert_eq!(world.enemies.len(), 1);
}

#[test]
fn failed_load_enters_nothing() {
    let mut game = Game::new(LevelManager::new(names(&["a.csv"])));
    game.update_app_state(true, false, None);
    game.update_app_state(false, false, Some(0));
    let err = game.enter_game(&rows(&["2,0", "9,0"])).unwrap_err();
    assert_eq!(err, LoadError::MalformedTile);
    assert_eq!(game.state, AppState::Menu(MenuState::Level));
    assert!(game.world.is_none());
}

#[test]
fn escape_in_game_tears_world_down() {
    let mut game = Game::new(LevelManager::new(names(&["a.csv"])));
    game.update_app_state(true, false, None);
    game.update_app_state(false, false, Some(0));
    game.enter_game(&rows(&["2,0", "0,0"])).unwrap();
    assert!(game.world.is_some());
    let load = game.update_app_state(false, true, None);
    assert_eq!(load, None);
    assert_eq!(game.state, AppState::Menu(MenuState::Main));
    assert!(game.world.is_none());
}

#[test]
fn reaching_goal_returns_to_main_menu() {
    // Player on the Start tile at (0, 0), the goal one cell right.
    let mut game = Game::new(LevelManager::new(names(&["a.csv"])));
    game.update_app_state(true, false, None);
    game.update_app_state(false, false, Some(0));
    game.enter_game(&rows(&["2,3", "0,0"])).unwrap();

    let out = game.run_frame(&vec![]);
    assert!(!out.goal_reached);
    assert_eq!(game.state, AppState::InGame);

    let out = game.run_frame(&vec![Key::D]);
    assert!(out.goal_reached);
    assert_eq!(game.state, AppState::Menu(MenuState::Main));
    assert!(game.world.is_none());
}

#[test]
fn frames_advance_the_world() {
    let mut game = Game::new(LevelManager::new(names(&["a.csv"])));
    game.update_app_state(true, false, None);
    game.update_app_state(false, false, Some(0));
    game.enter_game(&rows(&["2,0,0", "0,0,0", "0,0,3"])).unwrap();

    let out = game.run_frame(&vec![Key::S]);
    assert!(out.player_moved);
    assert!(!out.goal_reached);
    let world = game.world.as_ref().unwrap();
    assert_eq!(
        (world.player.coordinates.x(), world.player.coordinates.y()),
        (0, 1)
    );
}

#[test]
fn restarting_builds_a_fresh_world() {
    let mut game = Game::new(LevelManager::new(names(&["a.csv"])));
    game.update_app_state(true, false, None);
    game.update_app_state(false, false, Some(0));
    game.enter_game(&rows(&["2,0", "0,0"])).unwrap();
    game.run_frame(&vec![Key::D]);
    let moved = game.world.as_ref().unwrap().player.coordinates;
    assert_eq!((moved.x(), moved.y()), (1, 0));

    // Abort, re-enter: the player is back on the Start tile.
    game.update_app_state(false, true, None);
    game.update_app_state(true, false, None);
    game.update_app_state(false, false, Some(0));
    game.enter_game(&rows(&["2,0", "0,0"])).unwrap();
    let fresh = game.world.as_ref().unwrap().player.coordinates;
    assert_eq!((fresh.x(), fresh.y()), (0, 0));
}
