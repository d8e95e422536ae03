use vstd::prelude::*;

use crate::camera::Camera;
use crate::components::{TextureId, FIXED_ONE};
use crate::tilemap::Tilemap;

verus! {

/// The dimensions of the frame acquired for the current draw pass.
#[derive(Copy, Clone, Debug, PartialEq, Eq, Structural)]
pub struct FrameInfo {
    pub width: u32,
    pub height: u32,
}

/// One windowing event, as the polling edge outside this crate reports it.
#[derive(Copy, Clone, Debug, PartialEq, Eq, Structural)]
pub enum InputEvent {
    CloseRequested,
    Other,
}

/// The shared per-frame context every system reads or writes: the frame
/// clock in microseconds, the running flag, the current level and its
/// change flag, the tileset handle, the in-flight frame, and the camera.
///
/// `running_time` is the wall-clock reading of the previous tick; it is
/// absent until the first tick has run.
pub struct Services {
    pub delta_time: u64,
    pub running_time: Option<u64>,
    pub running: bool,
    pub tilemap_changed: bool,
    pub tilemap: Tilemap,
    pub tileset: TextureId,
    pub frame: Option<FrameInfo>,
    pub camera: Camera,
}

impl Services {
    pub open spec fn wf(self) -> bool {
        self.tilemap.wf()
    }

    /// The context a world starts with: clock unset, running, the level
    /// marked changed so the first draw builds its instances, no frame in
    /// flight, and the default camera.
    pub fn new(tilemap: Tilemap, tileset: TextureId) -> (r: Services)
        requires
            tilemap.wf(),
        ensures
            r.wf(),
            r.delta_time == 0,
            r.running_time is None,
            r.running == true,
            r.tilemap_changed == true,
            r.tilemap == tilemap,
            r.tileset == tileset,
            r.frame is None,
            r.camera == (Camera {
                viewport_size: (5 * FIXED_ONE) as i64,
                aspect_ratio: FIXED_ONE,
                center_x: 0,
                center_y: 0,
            }),
    {
        Services {
            delta_time: 0,
            running_time: None,
            running: true,
            tilemap_changed: true,
            tilemap,
            tileset,
            frame: None,
            camera: Camera::new(),
        }
    }
}

} // verus!
