use vstd::prelude::*;

verus! {

/// The shape of a primitive placed in the scene; it is saved with the scene
/// and its mesh is rebuilt from it when the scene is loaded.
#[derive(Clone, Copy, Debug, PartialEq, Eq, Structural, Hash)]
pub enum PrimitiveType {
    Cube,
    Sphere,
    Plane,
    Cylinder,
}

impl Default for PrimitiveType {
    fn default() -> (r: Self)
        ensures
            r == PrimitiveType::Cube,
    {
        PrimitiveType::Cube
    }
}

} // verus!
