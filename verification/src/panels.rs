//! Presentation-side state records.
//!
//! The window layer is a thin collaborator of the core: it renders,
//! and it reports operator choices back as plain values.  The state
//! those interactions need — which picker is open, what the device
//! enumeration offered, which entry is selected — lives here as plain
//! data, with no rendering concern attached.

use vstd::prelude::*;

verus! {

/// State of the calibration dialog.  It carries no fields: the
/// calibration controls live on the viewer, so the dialog itself has
/// nothing to remember.
pub struct CalibrationModal {}

impl CalibrationModal {
    /// Open the dialog.  With no state to set up, opening records
    /// nothing.
    pub fn open(&mut self) {
    }
}

/// State of the device picker: whether it is shown, the enumerated
/// `(index, human-readable name)` pairs a device-enumeration helper
/// supplied, and the operator's current choice.
pub struct VideoCaptureModal {
    pub open: bool,
    pub enum_cameras: Vec<(i32, String)>,
    pub selected: Option<(i32, String)>,
}

impl VideoCaptureModal {
    /// A closed picker with nothing enumerated and nothing selected.
    pub fn new() -> (r: VideoCaptureModal)
        ensures
            !r.open,
            r.enum_cameras@.len() == 0,
            r.selected is None,
    {
        VideoCaptureModal { open: false, enum_cameras: Vec::new(), selected: None }
    }

    /// Show the picker over a fresh device enumeration.  The
    /// enumeration itself comes from outside the core; this records
    /// its result.
    pub fn open(&mut self, enumerated: Vec<(i32, String)>)
        ensures
            final(self).open,
            final(self).enum_cameras == enumerated,
            final(self).selected == old(self).selected,
    {
        self.enum_cameras = enumerated;
        self.open = true;
    }
}

/// The persisted part of the file-picker state: the path that was
/// last opened, so the next picker starts there.
pub struct UnityCameraModalConfig {
    pub opened_path: Option<String>,
}

impl Default for UnityCameraModalConfig {
    /// No path remembered yet.
    fn default() -> (r: UnityCameraModalConfig)
        ensures
            r.opened_path is None,
    {
        UnityCameraModalConfig { opened_path: None }
    }
}

/// What the per-camera viewer can ask the core to do: close the
/// pipeline, or drive the calibration session.
pub enum VideoViewerEffect {
    OnClose,
    OnStartCalibration,
    OnCaptureFrame,
    OnStopCalibration,
}

/// State of the per-camera viewer.  The viewer itself is stateless:
/// everything it shows comes from the pipeline it renders.
pub struct VideoViewer {}

impl VideoViewer {
    /// A fresh viewer.
    pub fn new() -> (r: VideoViewer) {
        VideoViewer {}
    }
}

} // verus!
