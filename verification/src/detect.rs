//! Marker detection stage.
//!
//! A detector holds the fixed calibration-board geometry and republishes
//! each analysed frame together with its [`DetectionResult`] through its
//! own single-slot, latest-wins broadcast.  The native two-stage
//! detection (locate fiducial markers, then interpolate the board's
//! interior corners from them) runs outside this crate; this module owns
//! the geometry constant, the shape rules a result must obey, and the
//! publishing step, so a reader can never observe a torn or partially
//! populated result.

use vstd::prelude::*;
use crate::errors::DetectionError;
use crate::frame::Frame;
use crate::slot::Latest;

verus! {

/// A subpixel image position.  The coordinates are IEEE-754 single
/// precision values carried as their bit patterns: the core never does
/// arithmetic on them, it only moves them between the detector, the
/// calibration session and the solver.
#[derive(Clone, Copy, PartialEq, Eq, Structural, Debug)]
pub struct Point2 {
    pub x_bits: u32,
    pub y_bits: u32,
}

/// The four corners of one detected fiducial marker, in the order the
/// detector reported them.
#[derive(Clone, Copy, PartialEq, Eq, Structural, Debug)]
pub struct MarkerQuad {
    pub p0: Point2,
    pub p1: Point2,
    pub p2: Point2,
    pub p3: Point2,
}

/// The marker dictionary the fixed board embeds.
#[derive(Clone, Copy, PartialEq, Eq, Structural, Debug)]
pub enum MarkerDictionary {
    SixBySix250,
}

/// Number of board squares along each axis of the fixed board.
pub const BOARD_SQUARES_PER_SIDE: u32 = 3;

/// Side length of one board square, metres, as an IEEE-754 single
/// precision bit pattern (0.3).
pub const BOARD_SQUARE_LENGTH_BITS: u32 = 0x3E99999A;

/// Side length of one embedded marker, metres, as an IEEE-754 single
/// precision bit pattern (0.15).
pub const BOARD_MARKER_LENGTH_BITS: u32 = 0x3E19999A;

/// The known geometry of the calibration board: a grid of squares with
/// fiducial markers embedded at known relative positions.  Read-only
/// once constructed; shared freely by every detector that uses it.
#[derive(Clone, Copy, PartialEq, Eq, Structural, Debug)]
pub struct BoardGeometry {
    pub squares_x: u32,
    pub squares_y: u32,
    pub square_length_bits: u32,
    pub marker_length_bits: u32,
    pub dictionary: MarkerDictionary,
}

impl BoardGeometry {
    /// The one fixed board this system calibrates against.
    pub fn standard() -> (r: BoardGeometry)
        ensures
            r.squares_x == BOARD_SQUARES_PER_SIDE,
            r.squares_y == BOARD_SQUARES_PER_SIDE,
            r.square_length_bits == BOARD_SQUARE_LENGTH_BITS,
            r.marker_length_bits == BOARD_MARKER_LENGTH_BITS,
            r.dictionary == MarkerDictionary::SixBySix250,
    {
        BoardGeometry {
            squares_x: BOARD_SQUARES_PER_SIDE,
            squares_y: BOARD_SQUARES_PER_SIDE,
            square_length_bits: BOARD_SQUARE_LENGTH_BITS,
            marker_length_bits: BOARD_MARKER_LENGTH_BITS,
            dictionary: MarkerDictionary::SixBySix250,
        }
    }
}

/// What one detection pass found in one frame: the detected marker
/// quadrilaterals with their identifiers, and, when interpolation
/// succeeded, the refined board-corner points with their board-relative
/// identifiers.
pub struct DetectionResult {
    pub marker_quads: Vec<MarkerQuad>,
    pub marker_ids: Vec<i32>,
    pub board_corners: Vec<Point2>,
    pub board_corner_ids: Vec<i32>,
}

impl DetectionResult {
    /// Shape rules: identifiers pair up one-to-one with what they
    /// identify, and board corners exist only when markers do — a
    /// result is never partially populated.
    pub open spec fn well_formed(&self) -> bool {
        &&& self.marker_quads@.len() == self.marker_ids@.len()
        &&& self.board_corners@.len() == self.board_corner_ids@.len()
        &&& self.marker_ids@.len() == 0 ==> self.board_corners@.len() == 0
    }

    /// Whether the interpolation step produced board corners to sample.
    pub open spec fn has_board_corners(&self) -> bool {
        self.board_corners@.len() > 0
    }

    /// The result of a pass that found no fiducials.
    pub fn empty() -> (r: DetectionResult)
        ensures
            r.marker_quads@.len() == 0,
            r.marker_ids@.len() == 0,
            r.board_corners@.len() == 0,
            r.board_corner_ids@.len() == 0,
            r.well_formed(),
            !r.has_board_corners(),
    {
        DetectionResult {
            marker_quads: Vec::new(),
            marker_ids: Vec::new(),
            board_corners: Vec::new(),
            board_corner_ids: Vec::new(),
        }
    }

    /// Assemble a result from the two detection stages, enforcing the
    /// shape rules.  When the interpolation step failed or was skipped,
    /// pass empty corner lists: the result then reverts to "no board
    /// corners" as a whole.
    pub fn from_parts(
        marker_quads: Vec<MarkerQuad>,
        marker_ids: Vec<i32>,
        board_corners: Vec<Point2>,
        board_corner_ids: Vec<i32>,
    ) -> (r: Result<DetectionResult, DetectionError>)
        ensures
            match r {
                Ok(d) => {
                    &&& d.marker_quads@ == marker_quads@
                    &&& d.marker_ids@ == marker_ids@
                    &&& d.board_corners@ == board_corners@
                    &&& d.board_corner_ids@ == board_corner_ids@
                    &&& d.well_formed()
                },
                Err(DetectionError::ShapeMismatch) => {
                    ||| marker_quads@.len() != marker_ids@.len()
                    ||| board_corners@.len() != board_corner_ids@.len()
                    ||| (marker_ids@.len() == 0 && board_corners@.len() > 0)
                },
                Err(_) => false,
            },
            r is Ok <==> {
                &&& marker_quads@.len() == marker_ids@.len()
                &&& board_corners@.len() == board_corner_ids@.len()
                &&& (marker_ids@.len() == 0 ==> board_corners@.len() == 0)
            },
    {
        if marker_quads.len() != marker_ids.len() {
            return Err(DetectionError::ShapeMismatch);
        }
        if board_corners.len() != board_corner_ids.len() {
            return Err(DetectionError::ShapeMismatch);
        }
        if marker_ids.len() == 0 && board_corners.len() > 0 {
            return Err(DetectionError::ShapeMismatch);
        }
        Ok(DetectionResult { marker_quads, marker_ids, board_corners, board_corner_ids })
    }

    /// An independently owned copy of this result.
    pub fn duplicate(&self) -> (r: DetectionResult)
        ensures
            r.marker_quads@ == self.marker_quads@,
            r.marker_ids@ == self.marker_ids@,
            r.board_corners@ == self.board_corners@,
            r.board_corner_ids@ == self.board_corner_ids@,
    {
        DetectionResult {
            marker_quads: copy_quads(&self.marker_quads),
            marker_ids: copy_i32s(&self.marker_ids),
            board_corners: copy_points(&self.board_corners),
            board_corner_ids: copy_i32s(&self.board_corner_ids),
        }
    }
}

/// An element-for-element copy of a point list.
pub fn copy_points(v: &Vec<Point2>) -> (r: Vec<Point2>)
    ensures
        r@ == v@,
{
    let mut r: Vec<Point2> = Vec::new();
    let mut i: usize = 0;
    while i < v.len()
        invariant
            i <= v@.len(),
            r@ == v@.subrange(0, i as int),
        decreases v@.len() - i,
    {
        r.push(v[i]);
        i = i + 1;
    }
    proof {
        assert(r@ =~= v@);
    }
    r
}

/// An element-for-element copy of a marker-quad list.
pub fn copy_quads(v: &Vec<MarkerQuad>) -> (r: Vec<MarkerQuad>)
    ensures
        r@ == v@,
{
    let mut r: Vec<MarkerQuad> = Vec::new();
    let mut i: usize = 0;
    while i < v.len()
        invariant
            i <= v@.len(),
            r@ == v@.subrange(0, i as int),
        decreases v@.len() - i,
    {
        r.push(v[i]);
        i = i + 1;
    }
    proof {
        assert(r@ =~= v@);
    }
    r
}

/// An element-for-element copy of an identifier list.
pub fn copy_i32s(v: &Vec<i32>) -> (r: Vec<i32>)
    ensures
        r@ == v@,
{
    let mut r: Vec<i32> = Vec::new();
    let mut i: usize = 0;
    while i < v.len()
        invariant
            i <= v@.len(),
            r@ == v@.subrange(0, i as int),
        decreases v@.len() - i,
    {
        r.push(v[i]);
        i = i + 1;
    }
    proof {
        assert(r@ =~= v@);
    }
    r
}

/// The per-camera detection stage: the fixed board geometry plus the
/// broadcast slot through which (frame, result) pairs reach readers.
/// The pair is published in one step, so the result a reader sees
/// always belongs to the frame beside it.
pub struct MarkerDetector {
    pub board: BoardGeometry,
    pub output: Latest<(Frame, DetectionResult)>,
}

impl MarkerDetector {
    /// Every pair the slot ever holds has a well-formed result.
    pub open spec fn well_formed(&self) -> bool {
        match self.output.current() {
            Some(p) => p.1.well_formed(),
            None => true,
        }
    }

    /// A fresh detector for the given board: nothing published yet.
    pub fn new(board: BoardGeometry) -> (r: MarkerDetector)
        ensures
            r.board == board,
            r.output.current() is None,
            r.well_formed(),
    {
        MarkerDetector { board, output: Latest::empty() }
    }

    /// Publish a frame and the result detected in it as one atomic
    /// pair, overwriting whatever pair was there before.
    pub fn publish(&mut self, frame: Frame, result: DetectionResult)
        requires
            result.well_formed(),
        ensures
            final(self).board == old(self).board,
            final(self).output.current() == Some((frame, result)),
            final(self).well_formed(),
    {
        self.output.publish((frame, result));
    }

    /// The most recently published (frame, result) pair, or `None` if
    /// the detection loop has not published yet.  Never blocks.
    pub fn latest(&self) -> (r: Option<&(Frame, DetectionResult)>)
        ensures
            match r {
                Some(p) => self.output.current() == Some(*p),
                None => self.output.current() is None,
            },
    {
        self.output.latest()
    }
}

} // verus!
