//! Options of the surrounding editor's path-editing tool, carried through
//! the editor's message protocol alongside the graph runtime's own messages.

use vstd::prelude::*;

verus! {

/// Which handles the path tool overlays on the edited curve.
#[derive(Clone, Copy, PartialEq, Eq, Structural, Debug)]
pub enum PathOverlayMode {
    AllHandles,
    SelectedPointHandles,
    FrontierHandles,
}

impl Default for PathOverlayMode {
    /// Only the selected points' handles are shown by default.
    fn default() -> (r: PathOverlayMode)
        ensures
            r == PathOverlayMode::SelectedPointHandles,
    {
        PathOverlayMode::SelectedPointHandles
    }
}

/// The persistent options of the path tool.
#[derive(Clone, Copy, PartialEq, Eq, Structural, Debug)]
pub struct PathToolOptions {
    pub path_overlay_mode: PathOverlayMode,
}

impl Default for PathToolOptions {
    /// The default options.
    fn default() -> (r: PathToolOptions)
        ensures
            r.path_overlay_mode == PathOverlayMode::SelectedPointHandles,
    {
        PathToolOptions { path_overlay_mode: PathOverlayMode::SelectedPointHandles }
    }
}

/// An update to the path tool's options.
#[derive(Clone, Copy, PartialEq, Eq, Structural, Debug)]
pub enum PathOptionsUpdate {
    OverlayModeType(PathOverlayMode),
}

impl PathToolOptions {
    /// Apply one options update.
    pub fn apply(&mut self, update: PathOptionsUpdate)
        ensures
            match update {
                PathOptionsUpdate::OverlayModeType(mode) => final(self).path_overlay_mode == mode,
            },
    {
        match update {
            PathOptionsUpdate::OverlayModeType(mode) => {
                self.path_overlay_mode = mode;
            },
        }
    }
}

/// Whether a manipulator's handles move together or separately.
#[derive(Clone, Copy, PartialEq, Eq, Structural, Debug)]
pub enum ManipulatorAngle {
    Colinear,
    Free,
    Mixed,
}

impl Default for ManipulatorAngle {
    /// Handles move together until a drag frees them.
    fn default() -> (r: ManipulatorAngle)
        ensures
            r == ManipulatorAngle::Colinear,
    {
        ManipulatorAngle::Colinear
    }
}

/// What kind of point a drag of the path tool started on.
#[derive(Clone, Copy, PartialEq, Eq, Structural, Debug)]
pub enum PointSelectState {
    HandleWithPair,
    HandleNoPair,
    Anchor,
}

impl Default for PointSelectState {
    /// A lone handle, until a drag says otherwise.
    fn default() -> (r: PointSelectState)
        ensures
            r == PointSelectState::HandleNoPair,
    {
        PointSelectState::HandleNoPair
    }
}

/// The state a drag of the path tool carries.
#[derive(Clone, Copy, PartialEq, Eq, Structural, Debug)]
pub struct DraggingState {
    pub point_select_state: PointSelectState,
    pub colinear: ManipulatorAngle,
}

impl Default for DraggingState {
    /// The state before any drag.
    fn default() -> (r: DraggingState)
        ensures
            r.point_select_state == PointSelectState::HandleNoPair,
            r.colinear == ManipulatorAngle::Colinear,
    {
        DraggingState {
            point_select_state: PointSelectState::HandleNoPair,
            colinear: ManipulatorAngle::Colinear,
        }
    }
}

} // verus!
