use bevy_scene_editor::editor::{handle_editor_inputs, primitive_spawn, PrimitiveKind};
use bevy_scene_editor::primitives::PrimitiveType;
use bevy_scene_editor::scene::{scene_directory, scene_file_path, SceneSlot};

#[test]
fn scene_files_live_in_scenes_directory() {
    assert_eq!(scene_file_path(SceneSlot::Editor), "scenes/editor_scene.ron");
    assert_eq!(scene_file_path(SceneSlot::Game), "scenes/game_scene.ron");
    assert_eq!(scene_directory(), "scenes");
    for slot in [SceneSlot::Editor, SceneSlot::Game] {
        let path = std::path::Path::new(scene_file_path(slot));
        assert_eq!(path.parent().unwrap(), std::path::Path::new(scene_directory()));
    }
}

#[test]
fn the_two_scenes_never_share_a_file() {
    assert_ne!(scene_file_path(SceneSlot::Editor), scene_file_path(SceneSlot::Game));
}

#[test]
fn ctrl_s_saves_editor_scene() {
    assert_eq!(handle_editor_inputs(true, false, true), Some(SceneSlot::Editor));
}

#[test]
fn ctrl_shift_s_saves_game_scene() {
    assert_eq!(handle_editor_inputs(true, true, true), Some(SceneSlot::Game));
}

#[test]
fn no_save_without_control_or_s() {
    assert_eq!(handle_editor_inputs(false, false, true), None);
    assert_eq!(handle_editor_inputs(false, true, true), None);
    assert_eq!(handle_editor_inputs(true, false, false), None);
    assert_eq!(handle_editor_inputs(true, true, false), None);
}

#[test]
fn spawned_primitives_get_their_type_and_name() {
    let cases = [
        (PrimitiveKind::Cube, PrimitiveType::Cube, "Cube"),
        (PrimitiveKind::Sphere, PrimitiveType::Sphere, "Sphere"),
        (PrimitiveKind::Plane, PrimitiveType::Plane, "Plane"),
        (PrimitiveKind::Cylinder, PrimitiveType::Cylinder, "Cylinder"),
    ];
    for (kind, ty, name) in cases {
        let spawn = primitive_spawn(kind);
        assert_eq!(spawn.primitive_type, ty);
        assert_eq!(spawn.name, name);
    }
}

#[test]
fn different_kinds_spawn_different_primitives() {
    let kinds = [PrimitiveKind::Cube, PrimitiveKind::Sphere, PrimitiveKind::Plane, PrimitiveKind::Cylinder];
    for a in kinds {
        for b in kinds {
            if a != b {
                assert_ne!(primitive_spawn(a).primitive_type, primitive_spawn(b).primitive_type);
                assert_ne!(primitive_spawn(a).name, primitive_spawn(b).name);
            }
        }
    }
}

#[test]
fn default_primitive_is_cube() {
    assert_eq!(PrimitiveType::default(), PrimitiveType::Cube);
}
