//! Behavior of the presentation-side state records.

use mocap_for_one::panels::{
    CalibrationModal, UnityCameraModalConfig, VideoCaptureModal, VideoViewer, VideoViewerEffect,
};

#[test]
fn video_capture_modal_starts_closed() {
    let modal = VideoCaptureModal::new();
    assert!(!modal.open);
    assert!(modal.enum_cameras.is_empty());
    assert!(modal.selected.is_none());
}

#[test]
fn video_capture_modal_open_records_enumeration() {
    let mut modal = VideoCaptureModal::new();
    modal.open(vec![(0, String::from("Front")), (2, String::from("Desk"))]);
    assert!(modal.open);
    assert_eq!(modal.enum_cameras.len(), 2);
    assert_eq!(modal.enum_cameras[1].0, 2);
    assert_eq!(modal.enum_cameras[1].1, "Desk");
    assert!(modal.selected.is_none());
}

#[test]
fn unity_camera_modal_config_defaults_to_no_path() {
    let config = UnityCameraModalConfig::default();
    assert!(config.opened_path.is_none());
}

#[test]
fn calibration_modal_open_is_a_no_op() {
    let mut modal = CalibrationModal {};
    modal.open();
}

#[test]
fn video_viewer_effects_cover_the_calibration_controls() {
    let _viewer = VideoViewer::new();
    let effects = [
        VideoViewerEffect::OnClose,
        VideoViewerEffect::OnStartCalibration,
        VideoViewerEffect::OnCaptureFrame,
        VideoViewerEffect::OnStopCalibration,
    ];
    assert_eq!(effects.len(), 4);
}
