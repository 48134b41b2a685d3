use vstd::prelude::*;

// Coordinate spaces, used as unit markers on geometry.
verus! {

/// The coordinate space of the viewer.
#[derive(Clone, Copy, Debug)]
pub struct Viewer;

/// The coordinate space of the floor.
#[derive(Clone, Copy, Debug)]
pub struct Floor;

/// The coordinate space of the left eye.
#[derive(Clone, Copy, Debug)]
pub struct LeftEye;

/// The coordinate space of the right eye.
#[derive(Clone, Copy, Debug)]
pub struct RightEye;

/// The native 3D coordinate space of the device.
#[derive(Clone, Copy, Debug)]
pub struct Native;

/// The normalized device coordinate space, where the display spans
/// (-1,-1) to (1,1).
#[derive(Clone, Copy, Debug)]
pub struct Display;

/// The unnormalized device coordinate space, where the display spans
/// (0,0) to (w,h), measured in pixels.
#[derive(Clone, Copy, Debug)]
pub struct Viewport;

/// The coordinate space of an input device.
#[derive(Clone, Copy, Debug)]
pub struct Input;

} // verus!
