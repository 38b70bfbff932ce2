//! Verified decision logic of a runtime scene editor built on Bevy: which
//! application state a shortcut leads to and which system sets run in it,
//! which scene file a save shortcut writes, how pointer clicks and spawns
//! change the entity selection, what the inspector and the gizmo work on, how
//! the inspector lists resources and assets, and how the editor camera's
//! viewport is fitted into the window.

pub mod app;
pub mod editor;
pub mod primitives;
pub mod scene;
