use vstd::prelude::*;

verus! {

/// The two saved scenes: the editor's working copy and the scene the game loads.
#[derive(Clone, Copy, Debug, PartialEq, Eq, Structural, Hash)]
pub enum SceneSlot {
    Editor,
    Game,
}

/// The directory that holds the saved scenes.
pub open spec fn scene_dir() -> Seq<char> {
    "scenes"@
}

/// The file name of a saved scene inside the scene directory.
pub open spec fn scene_file_name(slot: SceneSlot) -> Seq<char> {
    match slot {
        SceneSlot::Editor => "editor_scene.ron"@,
        SceneSlot::Game => "game_scene.ron"@,
    }
}

/// The path under which a scene is saved and from which it is loaded.
pub open spec fn scene_path(slot: SceneSlot) -> Seq<char> {
    match slot {
        SceneSlot::Editor => "scenes/editor_scene.ron"@,
        SceneSlot::Game => "scenes/game_scene.ron"@,
    }
}

/// The path of a scene file; saving writes it and loading reads it.
pub fn scene_file_path(slot: SceneSlot) -> (path: &'static str)
    ensures
        path@ == scene_path(slot),
{
    match slot {
        SceneSlot::Editor => "scenes/editor_scene.ron",
        SceneSlot::Game => "scenes/game_scene.ron",
    }
}

/// The directory that saving creates before it writes a scene file.
pub fn scene_directory() -> (dir: &'static str)
    ensures
        dir@ == scene_dir(),
{
    "scenes"
}

/// Every scene file lies directly in the scene directory, and the two scenes
/// are kept in different files, so saving one never overwrites the other.
pub proof fn lemma_scene_paths()
    ensures
        forall|slot: SceneSlot|
            #[trigger] scene_path(slot) == scene_dir() + seq!['/'] + scene_file_name(slot),
        scene_path(SceneSlot::Editor) != scene_path(SceneSlot::Game),
{
    reveal_strlit("scenes");
    reveal_strlit("editor_scene.ron");
    reveal_strlit("game_scene.ron");
    reveal_strlit("scenes/editor_scene.ron");
    reveal_strlit("scenes/game_scene.ron");
    assert(scene_path(SceneSlot::Editor) =~= scene_dir() + seq!['/'] + scene_file_name(
        SceneSlot::Editor,
    ));
    assert(scene_path(SceneSlot::Game) =~= scene_dir() + seq!['/'] + scene_file_name(
        SceneSlot::Game,
    ));
    assert(scene_path(SceneSlot::Editor)[7] != scene_path(SceneSlot::Game)[7]);
}

} // verus!
