use bevy_scene_editor::app::{
    editor_systems_chain, editor_systems_run_in, game_systems_chain, game_systems_run_in,
    toggle_editor, AppState, EditorSystems, GameSystems,
};

#[test]
fn ctrl_e_in_game_opens_editor() {
    assert_eq!(toggle_editor(AppState::Game, true, false, true), Some(AppState::Editor));
}

#[test]
fn ctrl_e_in_editor_returns_to_game() {
    assert_eq!(toggle_editor(AppState::Editor, true, false, true), Some(AppState::Game));
}

#[test]
fn right_control_also_toggles() {
    assert_eq!(toggle_editor(AppState::Game, false, true, true), Some(AppState::Editor));
    assert_eq!(toggle_editor(AppState::Editor, true, true, true), Some(AppState::Game));
}

#[test]
fn e_without_control_does_nothing() {
    assert_eq!(toggle_editor(AppState::Game, false, false, true), None);
    assert_eq!(toggle_editor(AppState::Editor, false, false, true), None);
}

#[test]
fn control_without_e_does_nothing() {
    assert_eq!(toggle_editor(AppState::Game, true, true, false), None);
    assert_eq!(toggle_editor(AppState::Editor, true, false, false), None);
}

#[test]
fn toggling_twice_comes_back() {
    for start in [AppState::Game, AppState::Editor] {
        let once = toggle_editor(start, true, false, true).unwrap();
        assert_ne!(once, start);
        let twice = toggle_editor(once, true, false, true).unwrap();
        assert_eq!(twice, start);
    }
}

#[test]
fn application_starts_in_game() {
    assert_eq!(AppState::default(), AppState::Game);
}

#[test]
fn exactly_one_family_of_system_sets_runs() {
    assert!(game_systems_run_in(AppState::Game));
    assert!(!editor_systems_run_in(AppState::Game));
    assert!(editor_systems_run_in(AppState::Editor));
    assert!(!game_systems_run_in(AppState::Editor));
}

#[test]
fn game_sets_run_input_first_and_post_update_last() {
    assert_eq!(
        game_systems_chain(),
        vec![GameSystems::Input, GameSystems::TickTimers, GameSystems::Update, GameSystems::PostUpdate]
    );
}

#[test]
fn editor_sets_run_ui_last() {
    assert_eq!(
        editor_systems_chain(),
        vec![
            EditorSystems::Input,
            EditorSystems::Camera,
            EditorSystems::Picking,
            EditorSystems::Update,
            EditorSystems::SceneSync,
            EditorSystems::Ui,
        ]
    );
}

#[test]
fn system_set_chains_follow_declaration_order() {
    let game = game_systems_chain();
    assert!(game.windows(2).all(|w| w[0] < w[1]));
    let editor = editor_systems_chain();
    assert!(editor.windows(2).all(|w| w[0] < w[1]));
}
