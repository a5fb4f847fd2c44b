//! Error taxonomy of the capture and calibration core.
//!
//! Per-frame errors (`FrameReadError`, `DetectionError`) are transient:
//! capture and detection loops recover from them locally and retry.
//! Construction, calibration and persistence errors are surfaced to the
//! caller.

use vstd::prelude::*;

verus! {

/// Opening a video source failed: the device could not be opened or the
/// backing file could not be mapped.  Fatal to pipeline construction.
#[derive(Clone, Copy, Debug, PartialEq, Eq, Structural)]
pub enum SourceOpenError {
    DeviceUnavailable,
    PathUnreadable,
}

/// A single frame read failed.  Transient: the capture loop drops the
/// frame and retries on the next iteration.
#[derive(Clone, Copy, Debug, PartialEq, Eq, Structural)]
pub enum FrameReadError {
    EndOfStream,
    DecodeFailure,
    EmptyFrame,
}

/// A single detection pass failed.  Transient: the detection loop skips
/// publishing for this frame and retries on the next one.
#[derive(Clone, Copy, Debug, PartialEq, Eq, Structural)]
pub enum DetectionError {
    DetectorFailure,
    ShapeMismatch,
}

/// The calibration solve could not run or did not converge.  The session
/// state is left unchanged.
#[derive(Clone, Copy, Debug, PartialEq, Eq, Structural)]
pub enum CalibrationError {
    NoSamples,
    Degenerate,
}

/// Saving or loading camera parameters failed.
#[derive(Clone, Copy, Debug, PartialEq, Eq, Structural)]
pub enum PersistenceError {
    Io,
    NoParameters,
    Malformed,
}

/// An operation named a pipeline index that is not in the registry.
#[derive(Clone, Copy, Debug, PartialEq, Eq, Structural)]
pub enum IndexError {
    OutOfRange,
}

} // verus!
