use vstd::prelude::*;

verus! {

/// What the editor camera does with one frame of input.
#[derive(Clone, Copy, Debug, PartialEq, Eq, Structural)]
pub struct CameraInputPlan {
    /// turn yaw and pitch by the mouse motion
    pub orbit: bool,
    /// move the pivot in the camera plane by the mouse motion
    pub pan: bool,
    /// change the distance by the scroll amount
    pub zoom: bool,
    /// rebuild the camera transform from pivot, distance, yaw and pitch
    pub rebuild_transform: bool,
}

/// The decision of the editor camera: with the pointer over the viewport, the
/// middle button orbits (pans with Shift held) while the mouse moves, scrolling
/// zooms, and the transform is rebuilt; with the pointer elsewhere nothing happens.
pub fn handle_camera_input(
    pointer_in_viewport: bool,
    middle_pressed: bool,
    shift_pressed: bool,
    mouse_moved: bool,
    scrolled: bool,
) -> (plan: CameraInputPlan)
    ensures
        plan.orbit == (pointer_in_viewport && middle_pressed && !shift_pressed && mouse_moved),
        plan.pan == (pointer_in_viewport && middle_pressed && shift_pressed && mouse_moved),
        plan.zoom == (pointer_in_viewport && scrolled),
        plan.rebuild_transform == pointer_in_viewport,
        !(plan.orbit && plan.pan),
{
    if !pointer_in_viewport {
        return CameraInputPlan { orbit: false, pan: false, zoom: false, rebuild_transform: false };
    }
    CameraInputPlan {
        orbit: middle_pressed && !shift_pressed && mouse_moved,
        pan: middle_pressed && shift_pressed && mouse_moved,
        zoom: scrolled,
        rebuild_transform: true,
    }
}

/// A camera viewport in physical pixels.
#[derive(Clone, Copy, Debug, PartialEq, Eq, Structural)]
pub struct ViewportRect {
    pub x: u32,
    pub y: u32,
    pub width: u32,
    pub height: u32,
}

/// Whether a viewport at (`x`, `y`) of size `width` x `height` ends inside a
/// window of `window_width` x `window_height`.
pub open spec fn fits_window(x: u32, y: u32, width: u32, height: u32, window_width: u32, window_height: u32) -> bool {
    x + width <= window_width && y + height <= window_height
}

/// A viewport fits exactly when its far corner lies inside the window,
/// whatever its shape or position.
pub proof fn lemma_fits_window_is_far_corner_inside(
    x: u32,
    y: u32,
    width: u32,
    height: u32,
    window_width: u32,
    window_height: u32,
)
    ensures
        fits_window(x, y, width, height, window_width, window_height) ==> x + width
            <= window_width && y + height <= window_height,
        x + width <= window_width && y + height <= window_height ==> fits_window(
            x,
            y,
            width,
            height,
            window_width,
            window_height,
        ),
{
}

/// Fits the editor camera's viewport to the game view panel: the new viewport
/// is taken where its far corner lies inside the window; otherwise the
/// camera keeps the viewport it had.
pub fn set_camera_viewport(
    viewport: &mut Option<ViewportRect>,
    x: u32,
    y: u32,
    width: u32,
    height: u32,
    window_width: u32,
    window_height: u32,
)
    requires
        x + width <= u32::MAX,
        y + height <= u32::MAX,
    ensures
        *final(viewport) == if fits_window(x, y, width, height, window_width, window_height) {
            Some(ViewportRect { x, y, width, height })
        } else {
            *old(viewport)
        },
        x + width <= window_width && y + height <= window_height ==> *final(viewport) == Some(
            ViewportRect { x, y, width, height },
        ),
        x + width > window_width || y + height > window_height ==> *final(viewport) == *old(
            viewport,
        ),
{
    let right: u32 = x + width;
    let bottom: u32 = y + height;
    if right <= window_width && bottom <= window_height {
        *viewport = Some(ViewportRect { x, y, width, height });
    }
}

} // verus!
