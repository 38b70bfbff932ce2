pub mod camera;
pub mod listing;
pub mod selection;
pub mod ui;

use crate::primitives::PrimitiveType;
use crate::scene::SceneSlot;
use vstd::prelude::*;

verus! {

/// The primitives that the palette offers.
#[derive(Clone, Copy, Debug, PartialEq, Eq, Structural, Hash)]
pub enum PrimitiveKind {
    Cube,
    Sphere,
    Plane,
    Cylinder,
}

/// What spawning a primitive puts into the scene: its type and its name.
pub struct PrimitiveSpawn {
    pub primitive_type: PrimitiveType,
    pub name: &'static str,
}

/// The saved type of a spawned primitive of kind `kind`.
pub open spec fn spawned_type(kind: PrimitiveKind) -> PrimitiveType {
    match kind {
        PrimitiveKind::Cube => PrimitiveType::Cube,
        PrimitiveKind::Sphere => PrimitiveType::Sphere,
        PrimitiveKind::Plane => PrimitiveType::Plane,
        PrimitiveKind::Cylinder => PrimitiveType::Cylinder,
    }
}

/// The name given to a spawned primitive of kind `kind`.
pub open spec fn spawned_name(kind: PrimitiveKind) -> Seq<char> {
    match kind {
        PrimitiveKind::Cube => "Cube"@,
        PrimitiveKind::Sphere => "Sphere"@,
        PrimitiveKind::Plane => "Plane"@,
        PrimitiveKind::Cylinder => "Cylinder"@,
    }
}

/// The primitive that the spawn request for `kind` places at the world origin.
pub fn primitive_spawn(kind: PrimitiveKind) -> (spawn: PrimitiveSpawn)
    ensures
        spawn.primitive_type == spawned_type(kind),
        spawn.name@ == spawned_name(kind),
{
    match kind {
        PrimitiveKind::Cube => PrimitiveSpawn { primitive_type: PrimitiveType::Cube, name: "Cube" },
        PrimitiveKind::Sphere => PrimitiveSpawn {
            primitive_type: PrimitiveType::Sphere,
            name: "Sphere",
        },
        PrimitiveKind::Plane => PrimitiveSpawn { primitive_type: PrimitiveType::Plane, name: "Plane" },
        PrimitiveKind::Cylinder => PrimitiveSpawn {
            primitive_type: PrimitiveType::Cylinder,
            name: "Cylinder",
        },
    }
}

/// Different kinds spawn primitives of different types and different names,
/// so a saved scene tells every spawned primitive's kind apart.
pub proof fn lemma_spawn_distinguishes_kinds(a: PrimitiveKind, b: PrimitiveKind)
    requires
        a != b,
    ensures
        spawned_type(a) != spawned_type(b),
        spawned_name(a) != spawned_name(b),
{
    reveal_strlit("Cube");
    reveal_strlit("Sphere");
    reveal_strlit("Plane");
    reveal_strlit("Cylinder");
    // the four names have four different lengths
    assert(spawned_name(a).len() != spawned_name(b).len());
}

/// Ctrl (left) with S just pressed and Shift (left) not held saves the editor's scene.
pub open spec fn saves_editor_scene(ctrl: bool, shift: bool, s_just_pressed: bool) -> bool {
    ctrl && !shift && s_just_pressed
}

/// Ctrl and Shift (left) with S just pressed saves the game's scene.
pub open spec fn saves_game_scene(ctrl: bool, shift: bool, s_just_pressed: bool) -> bool {
    ctrl && shift && s_just_pressed
}

/// The editor's save shortcuts: which scene, if any, this frame's keys save.
pub fn handle_editor_inputs(ctrl: bool, shift: bool, s_just_pressed: bool) -> (save: Option<SceneSlot>)
    ensures
        (save == Some(SceneSlot::Editor)) == saves_editor_scene(ctrl, shift, s_just_pressed),
        (save == Some(SceneSlot::Game)) == saves_game_scene(ctrl, shift, s_just_pressed),
        save is None == !(saves_editor_scene(ctrl, shift, s_just_pressed) || saves_game_scene(
            ctrl,
            shift,
            s_just_pressed,
        )),
        save is Some ==> ctrl && s_just_pressed,
        ctrl && s_just_pressed ==> save is Some,
        save == Some(SceneSlot::Game) ==> shift,
        save == Some(SceneSlot::Editor) ==> !shift,
{
    if ctrl && !shift && s_just_pressed {
        Some(SceneSlot::Editor)
    } else if ctrl && shift && s_just_pressed {
        Some(SceneSlot::Game)
    } else {
        None
    }
}

/// A save needs Control held and S just pressed; with both, Shift alone
/// decides which scene is written. An idle frame saves nothing.
pub proof fn lemma_save_needs_control_and_s(ctrl: bool, shift: bool, s_just_pressed: bool)
    ensures
        saves_editor_scene(ctrl, shift, s_just_pressed) ==> ctrl && s_just_pressed && !shift,
        saves_game_scene(ctrl, shift, s_just_pressed) ==> ctrl && s_just_pressed && shift,
        ctrl && s_just_pressed && !shift ==> saves_editor_scene(ctrl, shift, s_just_pressed),
        ctrl && s_just_pressed && shift ==> saves_game_scene(ctrl, shift, s_just_pressed),
        !saves_editor_scene(false, shift, s_just_pressed),
        !saves_editor_scene(ctrl, shift, false),
        !saves_game_scene(false, shift, s_just_pressed),
        !saves_game_scene(ctrl, shift, false),
{
}

/// No frame saves both scenes.
pub proof fn lemma_one_save_per_frame(ctrl: bool, shift: bool, s_just_pressed: bool)
    ensures
        !(saves_editor_scene(ctrl, shift, s_just_pressed) && saves_game_scene(
            ctrl,
            shift,
            s_just_pressed,
        )),
{
}

} // verus!
