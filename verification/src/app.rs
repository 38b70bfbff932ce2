use vstd::prelude::*;

verus! {

/// The two modes of the application: playing the game or editing the scene.
#[derive(Clone, Copy, Debug, PartialEq, Eq, Structural, Hash)]
pub enum AppState {
    Game,
    Editor,
}

impl Default for AppState {
    /// The application starts in the game.
    fn default() -> (r: Self)
        ensures
            r == AppState::Game,
    {
        AppState::Game
    }
}

/// The system sets of the game, in the order in which they run each frame.
#[derive(Clone, Copy, Debug, PartialEq, Eq, Structural, Hash, PartialOrd, Ord)]
pub enum GameSystems {
    /// read player input
    Input,
    /// advance timers before logic reads them
    TickTimers,
    /// main game logic
    Update,
    /// reactions to state changes, camera follow
    PostUpdate,
}

/// The system sets of the editor, in the order in which they run each frame.
#[derive(Clone, Copy, Debug, PartialEq, Eq, Structural, Hash, PartialOrd, Ord)]
pub enum EditorSystems {
    /// editor shortcuts, camera movement input
    Input,
    /// camera movement from the input
    Camera,
    /// raycasting, click to select
    Picking,
    /// general editor logic, gizmo target
    Update,
    /// serialising the working copy of the scene
    SceneSync,
    /// the egui panels, always last
    Ui,
}

/// The other state: the editor from the game, the game from the editor.
pub open spec fn toggled(state: AppState) -> AppState {
    match state {
        AppState::Game => AppState::Editor,
        AppState::Editor => AppState::Game,
    }
}

/// The editor toggle shortcut: either Control key held and E just pressed.
pub open spec fn toggle_requested(ctrl_left: bool, ctrl_right: bool, e_just_pressed: bool) -> bool {
    (ctrl_left || ctrl_right) && e_just_pressed
}

/// The decision of the editor toggle: on Ctrl+E the next state is the other
/// state; otherwise the state is left alone (`None`).
pub fn toggle_editor(current: AppState, ctrl_left: bool, ctrl_right: bool, e_just_pressed: bool) -> (next:
    Option<AppState>)
    ensures
        next == if toggle_requested(ctrl_left, ctrl_right, e_just_pressed) {
            Some(toggled(current))
        } else {
            None
        },
        !e_just_pressed ==> next is None,
        !ctrl_left && !ctrl_right ==> next is None,
        e_just_pressed && (ctrl_left || ctrl_right) ==> next is Some && next->0 != current,
{
    let ctrl = ctrl_left || ctrl_right;
    if ctrl && e_just_pressed {
        match current {
            AppState::Game => Some(AppState::Editor),
            AppState::Editor => Some(AppState::Game),
        }
    } else {
        None
    }
}

/// The toggle fires exactly when E has just been pressed while a Control key
/// (left or right) is held: an idle frame, E alone, or Control alone never
/// changes the state.
pub proof fn lemma_toggle_needs_control_and_e(ctrl_left: bool, ctrl_right: bool, e_just_pressed: bool)
    ensures
        toggle_requested(ctrl_left, ctrl_right, e_just_pressed) ==> e_just_pressed,
        toggle_requested(ctrl_left, ctrl_right, e_just_pressed) ==> ctrl_left || ctrl_right,
        e_just_pressed && ctrl_left ==> toggle_requested(ctrl_left, ctrl_right, e_just_pressed),
        e_just_pressed && ctrl_right ==> toggle_requested(ctrl_left, ctrl_right, e_just_pressed),
        !toggle_requested(false, false, false),
{
}

/// The game's sets run in the game and only there; the editor's sets run in
/// the editor and only there.
pub proof fn lemma_system_sets_follow_state(state: AppState)
    ensures
        game_systems_active(AppState::Game),
        !game_systems_active(AppState::Editor),
        editor_systems_active(AppState::Editor),
        !editor_systems_active(AppState::Game),
{
}

/// Toggling always changes the state, and toggling twice comes back to where
/// it started.
pub proof fn lemma_toggle_twice(state: AppState)
    ensures
        toggled(state) != state,
        toggled(toggled(state)) == state,
{
}

/// Whether the game's system sets run in `state`.
pub open spec fn game_systems_active(state: AppState) -> bool {
    state == AppState::Game
}

/// Whether the editor's system sets run in `state`.
pub open spec fn editor_systems_active(state: AppState) -> bool {
    state == AppState::Editor
}

/// The run condition of the game's system sets.
pub fn game_systems_run_in(state: AppState) -> (r: bool)
    ensures
        r == game_systems_active(state),
{
    match state {
        AppState::Game => true,
        AppState::Editor => false,
    }
}

/// The run condition of the editor's system sets.
pub fn editor_systems_run_in(state: AppState) -> (r: bool)
    ensures
        r == editor_systems_active(state),
{
    match state {
        AppState::Game => false,
        AppState::Editor => true,
    }
}

/// In every state exactly one of the two families of system sets runs.
pub proof fn lemma_one_family_runs(state: AppState)
    ensures
        game_systems_active(state) != editor_systems_active(state),
{
}

/// The game's system sets in the order they are chained.
pub fn game_systems_chain() -> (chain: Vec<GameSystems>)
    ensures
        chain@ == seq![
            GameSystems::Input,
            GameSystems::TickTimers,
            GameSystems::Update,
            GameSystems::PostUpdate,
        ],
{
    vec![GameSystems::Input, GameSystems::TickTimers, GameSystems::Update, GameSystems::PostUpdate]
}

/// The editor's system sets in the order they are chained; the UI comes last.
pub fn editor_systems_chain() -> (chain: Vec<EditorSystems>)
    ensures
        chain@ == seq![
            EditorSystems::Input,
            EditorSystems::Camera,
            EditorSystems::Picking,
            EditorSystems::Update,
            EditorSystems::SceneSync,
            EditorSystems::Ui,
        ],
{
    vec![
        EditorSystems::Input,
        EditorSystems::Camera,
        EditorSystems::Picking,
        EditorSystems::Update,
        EditorSystems::SceneSync,
        EditorSystems::Ui,
    ]
}

} // verus!
