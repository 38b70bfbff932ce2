# bevy_scene_editor

The decision logic of a runtime level editor for Bevy, verified with Verus.

`src/` is the verified library:

- `app.rs` — the application states, the Ctrl+E editor toggle, and which
  system sets run, in which order, in each state.
- `scene.rs` — where the editor's and the game's scenes are saved and loaded.
- `primitives.rs` — the primitive types that a scene stores.
- `editor/mod.rs` — the save shortcuts and what spawning a primitive creates.
- `editor/selection.rs` — the trusted interface to `bevy-inspector-egui`'s
  `SelectedEntities`, with entities given by their `Entity::to_bits`.
- `editor/ui.rs` — the editor's UI state: pointer picking, the selection laws,
  the inspector's view, the gizmo's target, tabs and palette.
- `editor/listing.rs` — the name order of the inspector's resource and asset
  lists and the asset group labels.
- `editor/camera.rs` — the editor camera's input plan and viewport fitting.

`app/` is the Bevy application around it (plugins, systems, egui panels,
scene files, floating-point camera and gizmo arithmetic). `tests/` runs the
library on concrete inputs.
