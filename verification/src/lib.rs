//! Core of a multi-camera capture and calibration pipeline.
//!
//! Video frames flow from a source (a capture device or a memory-mapped
//! still feed) through a single-slot, latest-wins broadcast into a marker
//! detection stage, whose output an operator samples into a calibration
//! session.  The session turns accumulated samples into per-camera
//! intrinsic parameters, which persist as a portable, shape-tagged text
//! document.

pub mod calib;
pub mod codec;
pub mod detect;
pub mod errors;
pub mod frame;
pub mod mapped;
pub mod panels;
pub mod registry;
pub mod slot;
pub mod source;
pub mod stream;
pub mod text;
