//! The editor controller's per-frame decisions, separated from the GPU
//! and windowing plumbing that carries them out: how pointer drags steer
//! the camera, and how a freshly decoded pick index turns into the
//! sibling-highlight triple for the next frame's uniforms.

use vstd::prelude::*;

use crate::mesh::Ico;
use crate::mesh::IcoFace;

verus! {

/// What a pointer drag does to the camera this frame.
#[derive(Clone, Copy, Debug, PartialEq, Eq, Structural)]
pub enum CameraAction {
    /// Leave the camera alone.
    Idle,
    /// Translate the camera target in the view plane.
    Pan,
    /// Orbit the camera around the target.
    Rotate,
}

/// The camera reacts to a drag only while the button is held and the
/// overlay has not captured the pointer; the modifier key chooses panning
/// over rotation.
pub open spec fn camera_action_spec(
    mouse_pressed: bool,
    overlay_wants_mouse: bool,
    ctrl: bool,
) -> CameraAction {
    if !mouse_pressed || overlay_wants_mouse {
        CameraAction::Idle
    } else if ctrl {
        CameraAction::Pan
    } else {
        CameraAction::Rotate
    }
}

pub fn camera_action(mouse_pressed: bool, overlay_wants_mouse: bool, ctrl: bool) -> (r:
    CameraAction)
    ensures
        r == camera_action_spec(mouse_pressed, overlay_wants_mouse, ctrl),
{
    if mouse_pressed && !overlay_wants_mouse {
        if ctrl {
            CameraAction::Pan
        } else {
            CameraAction::Rotate
        }
    } else {
        CameraAction::Idle
    }
}

/// The classes of presentation failure the frame loop distinguishes.
#[derive(Clone, Copy, Debug, PartialEq, Eq, Structural)]
pub enum FrameError {
    /// The swap target became invalid and must be rebuilt.
    SurfaceLost,
    /// The device is out of memory; retrying at once would not help.
    OutOfMemory,
    /// Any other presentation failure.
    Other,
}

/// What the frame loop does about a presentation failure.
#[derive(Clone, Copy, Debug, PartialEq, Eq, Structural)]
pub enum FrameRecovery {
    /// Rebuild the size-dependent targets at the current size, then
    /// continue.
    RebuildSurface,
    /// Skip this frame silently and continue.
    SkipFrame,
    /// Report the failure, skip this frame, and continue.
    LogAndSkip,
}

/// The loop recovers from every presentation failure: a lost surface is
/// rebuilt, an out-of-memory frame is skipped silently, anything else is
/// reported and skipped. Nothing aborts the loop.
pub open spec fn frame_recovery_spec(e: FrameError) -> FrameRecovery {
    match e {
        FrameError::SurfaceLost => FrameRecovery::RebuildSurface,
        FrameError::OutOfMemory => FrameRecovery::SkipFrame,
        FrameError::Other => FrameRecovery::LogAndSkip,
    }
}

pub fn frame_recovery(e: FrameError) -> (r: FrameRecovery)
    ensures
        r == frame_recovery_spec(e),
{
    match e {
        FrameError::SurfaceLost => FrameRecovery::RebuildSurface,
        FrameError::OutOfMemory => FrameRecovery::SkipFrame,
        FrameError::Other => FrameRecovery::LogAndSkip,
    }
}

/// A sibling slot as the highlight uniforms carry it: the face index, or
/// 0 for an empty slot.
pub open spec fn sibling_or_zero(f: IcoFace, k: int) -> u32 {
    match f.siblings[k] {
        Some(v) => v,
        None => 0,
    }
}

/// The three sibling indices to highlight for the face picked as
/// `index`: its siblings where it exists, all zeros for the sentinel 0
/// and for out-of-range indices.
pub fn highlight_siblings(mesh: &Ico, index: u32) -> (r: [u32; 3])
    requires
        mesh.wf(),
    ensures
        1 <= index <= mesh.faces@.len() ==> {
            let f = mesh.faces@[index - 1];
            r[0] == sibling_or_zero(f, 0) && r[1] == sibling_or_zero(f, 1) && r[2]
                == sibling_or_zero(f, 2)
        },
        (index == 0 || index > mesh.faces@.len()) ==> r[0] == 0 && r[1] == 0 && r[2] == 0,
{
    match mesh.face(index) {
        Some(f) => {
            let s0 = match f.siblings[0] {
                Some(v) => v,
                None => 0,
            };
            let s1 = match f.siblings[1] {
                Some(v) => v,
                None => 0,
            };
            let s2 = match f.siblings[2] {
                Some(v) => v,
                None => 0,
            };
            [s0, s1, s2]
        },
        None => [0, 0, 0],
    }
}

/// One pick-resolution step: the index decoded from the previous frame's
/// selection pass against the currently selected one. `None` when the
/// selection is unchanged and the highlight uniforms keep their values;
/// otherwise the highlight triple to write for the newly selected face.
pub fn selection_update(mesh: &Ico, selected: u32, decoded: u32) -> (r: Option<[u32; 3]>)
    requires
        mesh.wf(),
    ensures
        r is Some <==> decoded != selected,
        r matches Some(h) ==> {
            &&& 1 <= decoded <= mesh.faces@.len() ==> {
                let f = mesh.faces@[decoded - 1];
                h[0] == sibling_or_zero(f, 0) && h[1] == sibling_or_zero(f, 1) && h[2]
                    == sibling_or_zero(f, 2)
            }
            &&& (decoded == 0 || decoded > mesh.faces@.len()) ==> h[0] == 0 && h[1] == 0 && h[2]
                == 0
        },
{
    if decoded != selected {
        Some(highlight_siblings(mesh, decoded))
    } else {
        None
    }
}

} // verus!
