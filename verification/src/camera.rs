//! The camera: how far the cube has turned, the field of view and the
//! distance of the viewer.
//!
//! The field of view and the viewer distance start as whole numbers and
//! change by whole steps, so the camera holds them as integers. The angle is
//! held as the number of increments it has advanced by. A value that would
//! leave the range of its integer type stays at the end of the range.

use vstd::prelude::*;

verus! {

/// The field of view of a new camera.
pub const INITIAL_FOV: i64 = 100;

/// The viewer distance of a new camera.
pub const INITIAL_VIEWER_DISTANCE: i64 = 6;

/// The change of the field of view in one zoom step.
pub const FOV_STEP: i64 = 10;

/// The change of the viewer distance in one zoom step.
pub const DISTANCE_STEP: i64 = 1;

/// The state that is carried from one frame to the next.
#[derive(Clone, Copy, Debug, PartialEq, Eq, Structural)]
pub struct Camera {
    /// The number of increments by which the angle has advanced.
    pub angle_steps: u64,
    /// The scale of the projection: larger is closer.
    pub fov: i64,
    /// The distance from the viewer to the centre of the cube.
    pub viewer_distance: i64,
}

/// The `i64` nearest to `value`.
pub open spec fn nearest_i64(value: int) -> i64 {
    if value > i64::MAX {
        i64::MAX
    } else if value < i64::MIN {
        i64::MIN
    } else {
        value as i64
    }
}

/// The camera before the first frame.
pub open spec fn initial_camera() -> Camera {
    Camera { angle_steps: 0, fov: INITIAL_FOV, viewer_distance: INITIAL_VIEWER_DISTANCE }
}

/// The camera after the angle has advanced by one increment.
pub open spec fn turned(camera: Camera) -> Camera {
    Camera {
        angle_steps: if camera.angle_steps < u64::MAX {
            (camera.angle_steps + 1) as u64
        } else {
            camera.angle_steps
        },
        ..camera
    }
}

/// The camera one zoom step closer: a wider field of view from a shorter
/// distance.
pub open spec fn zoomed_in(camera: Camera) -> Camera {
    Camera {
        fov: nearest_i64(camera.fov + FOV_STEP),
        viewer_distance: nearest_i64(camera.viewer_distance - DISTANCE_STEP),
        ..camera
    }
}

/// The camera one zoom step further away: a narrower field of view from a
/// longer distance.
pub open spec fn zoomed_out(camera: Camera) -> Camera {
    Camera {
        fov: nearest_i64(camera.fov - FOV_STEP),
        viewer_distance: nearest_i64(camera.viewer_distance + DISTANCE_STEP),
        ..camera
    }
}

/// Whether a zoom step in either direction keeps both values of the camera
/// inside the range of their type.
pub open spec fn can_zoom_freely(camera: Camera) -> bool {
    &&& i64::MIN + FOV_STEP <= camera.fov <= i64::MAX - FOV_STEP
    &&& i64::MIN + DISTANCE_STEP <= camera.viewer_distance <= i64::MAX - DISTANCE_STEP
}

impl Camera {
    /// The camera before the first frame.
    pub fn new() -> (camera: Camera)
        ensures
            camera == initial_camera(),
    {
        Camera { angle_steps: 0, fov: INITIAL_FOV, viewer_distance: INITIAL_VIEWER_DISTANCE }
    }

    /// Advances the angle by one increment.
    pub fn turn(&mut self)
        ensures
            *final(self) == turned(*old(self)),
    {
        if self.angle_steps < u64::MAX {
            self.angle_steps = self.angle_steps + 1;
        }
    }

    /// Zooms in by one step.
    pub fn zoom_in(&mut self)
        ensures
            *final(self) == zoomed_in(*old(self)),
    {
        self.fov = if self.fov <= i64::MAX - FOV_STEP {
            self.fov + FOV_STEP
        } else {
            i64::MAX
        };
        self.viewer_distance = if self.viewer_distance >= i64::MIN + DISTANCE_STEP {
            self.viewer_distance - DISTANCE_STEP
        } else {
            i64::MIN
        };
    }

    /// Zooms out by one step.
    pub fn zoom_out(&mut self)
        ensures
            *final(self) == zoomed_out(*old(self)),
    {
        self.fov = if self.fov >= i64::MIN + FOV_STEP {
            self.fov - FOV_STEP
        } else {
            i64::MIN
        };
        self.viewer_distance = if self.viewer_distance <= i64::MAX - DISTANCE_STEP {
            self.viewer_distance + DISTANCE_STEP
        } else {
            i64::MAX
        };
    }
}

/// Away from the ends of the range a zoom step changes the field of view by
/// `FOV_STEP` and the viewer distance by `DISTANCE_STEP`, in opposite
/// directions, and leaves the angle alone.
pub proof fn law_zoom_steps(camera: Camera)
    requires
        can_zoom_freely(camera),
    ensures
        zoomed_in(camera).fov == camera.fov + FOV_STEP,
        zoomed_in(camera).viewer_distance == camera.viewer_distance - DISTANCE_STEP,
        zoomed_out(camera).fov == camera.fov - FOV_STEP,
        zoomed_out(camera).viewer_distance == camera.viewer_distance + DISTANCE_STEP,
        zoomed_in(camera).angle_steps == camera.angle_steps,
        zoomed_out(camera).angle_steps == camera.angle_steps,
{
}

/// Away from the ends of the range zooming in and zooming out undo each
/// other.
pub proof fn law_zoom_round_trip(camera: Camera)
    requires
        can_zoom_freely(camera),
    ensures
        zoomed_out(zoomed_in(camera)) == camera,
        zoomed_in(zoomed_out(camera)) == camera,
{
}

/// The angle never goes back, and turning changes nothing else.
pub proof fn law_turning_only_advances(camera: Camera)
    ensures
        turned(camera).angle_steps >= camera.angle_steps,
        camera.angle_steps < u64::MAX ==> turned(camera).angle_steps == camera.angle_steps + 1,
        turned(camera).fov == camera.fov,
        turned(camera).viewer_distance == camera.viewer_distance,
{
}

} // verus!
