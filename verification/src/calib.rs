//! Calibration samples, camera parameters and the per-camera session.
//!
//! A session accumulates operator-selected detection samples and, on
//! demand, prepares them for the calibration solve.  The solve itself is
//! native numerical code outside this crate: the session builds the
//! exact solver input from its samples, and stores the parameters the
//! solver produced.  Parameters are a fixed-shape 3x3 intrinsic matrix
//! and a 1x5 distortion vector of IEEE-754 double precision values,
//! carried as their bit patterns.

use vstd::prelude::*;
use crate::codec::{
    ParamsModel, lemma_params_round_trip, parse_params, serialize_params, spec_parse_params,
    spec_serialize_params,
};
use crate::detect::{BoardGeometry, DetectionResult, Point2, copy_points, copy_i32s};
use crate::errors::{CalibrationError, PersistenceError};
use crate::frame::Frame;

verus! {

/// One captured (board-corner points, board-corner identifiers) pair,
/// taken from one detection result at one instant.
pub struct CalibrationSample {
    pub corners: Vec<Point2>,
    pub ids: Vec<i32>,
}

impl CalibrationSample {
    /// A sample pairs every corner with an identifier and is never
    /// empty: `capture` only takes samples from results that actually
    /// hold board corners.
    pub open spec fn well_formed(&self) -> bool {
        &&& self.corners@.len() == self.ids@.len()
        &&& self.corners@.len() > 0
    }
}

/// Per-camera intrinsic calibration: the 3x3 camera matrix in row-major
/// order and the five distortion coefficients, both as IEEE-754 double
/// precision bit patterns.  The shape is fixed by the types: the two
/// fields always exist together in full.
#[derive(Clone, Copy, PartialEq, Eq, Debug)]
pub struct CameraParameter {
    pub camera_matrix: [u64; 9],
    pub dist_coeffs: [u64; 5],
}

/// The portable flat form of [`CameraParameter`]: plain vectors, as the
/// persistence layer and the native solver boundary exchange them.
pub struct CameraParameterNum {
    pub camera_matrix: Vec<u64>,
    pub dist_coeffs: Vec<u64>,
}

impl CameraParameterNum {
    /// The flat form is well formed when it holds exactly the 3x3 + 1x5
    /// shape.
    pub open spec fn well_formed(&self) -> bool {
        &&& self.camera_matrix@.len() == 9
        &&& self.dist_coeffs@.len() == 5
    }
}

impl CameraParameter {
    /// The flat form of these parameters.
    pub fn to_num(&self) -> (r: CameraParameterNum)
        ensures
            r.camera_matrix@ == self.camera_matrix@,
            r.dist_coeffs@ == self.dist_coeffs@,
            r.well_formed(),
    {
        let mut camera_matrix: Vec<u64> = Vec::new();
        let mut i: usize = 0;
        while i < 9
            invariant
                i <= 9,
                camera_matrix@ == self.camera_matrix@.subrange(0, i as int),
            decreases 9 - i,
        {
            camera_matrix.push(self.camera_matrix[i]);
            i = i + 1;
        }
        let mut dist_coeffs: Vec<u64> = Vec::new();
        let mut j: usize = 0;
        while j < 5
            invariant
                j <= 5,
                dist_coeffs@ == self.dist_coeffs@.subrange(0, j as int),
            decreases 5 - j,
        {
            dist_coeffs.push(self.dist_coeffs[j]);
            j = j + 1;
        }
        proof {
            assert(camera_matrix@ =~= self.camera_matrix@);
            assert(dist_coeffs@ =~= self.dist_coeffs@);
        }
        CameraParameterNum { camera_matrix, dist_coeffs }
    }

    /// Rebuild fixed-shape parameters from the flat form; `None` when
    /// the flat form does not have the 3x3 + 1x5 shape.
    pub fn from_num(num: &CameraParameterNum) -> (r: Option<CameraParameter>)
        ensures
            match r {
                Some(p) => {
                    &&& num.well_formed()
                    &&& p.camera_matrix@ == num.camera_matrix@
                    &&& p.dist_coeffs@ == num.dist_coeffs@
                },
                None => !num.well_formed(),
            },
    {
        if num.camera_matrix.len() != 9 || num.dist_coeffs.len() != 5 {
            return None;
        }
        let m = &num.camera_matrix;
        let d = &num.dist_coeffs;
        let p = CameraParameter {
            camera_matrix: [m[0], m[1], m[2], m[3], m[4], m[5], m[6], m[7], m[8]],
            dist_coeffs: [d[0], d[1], d[2], d[3], d[4]],
        };
        proof {
            assert(p.camera_matrix@ =~= num.camera_matrix@);
            assert(p.dist_coeffs@ =~= num.dist_coeffs@);
        }
        Some(p)
    }
}

/// Everything the native calibration solve needs: the captured samples,
/// the board they were detected on, and the image size of the camera
/// being calibrated.
pub struct SolveRequest {
    pub samples: Vec<CalibrationSample>,
    pub board: BoardGeometry,
    pub image_width: u32,
    pub image_height: u32,
}

/// The per-camera calibration state: the accumulated samples and the
/// most recent solve result, if any.  Idle means no samples; capturing
/// appends; the solve is a stateless operation over the current sample
/// set.
pub struct CalibrationSession {
    pub samples: Vec<CalibrationSample>,
    pub parameters: Option<CameraParameter>,
}

impl CalibrationSession {
    /// Every accumulated sample obeys the sample shape rules.
    pub open spec fn well_formed(&self) -> bool {
        forall|i: int| 0 <= i < self.samples@.len() ==> (#[trigger] self.samples@[i]).well_formed()
    }

    /// A fresh session: no samples, no parameters.
    pub fn new() -> (r: CalibrationSession)
        ensures
            r.samples@.len() == 0,
            r.parameters is None,
            r.well_formed(),
    {
        CalibrationSession { samples: Vec::new(), parameters: None }
    }

    /// Take a sample from the detection pair currently on offer, if it
    /// holds board corners; otherwise change nothing.  The stored
    /// parameters are never touched.
    pub fn capture(&mut self, latest: Option<&(Frame, DetectionResult)>)
        requires
            old(self).well_formed(),
            match latest {
                Some(p) => p.1.well_formed(),
                None => true,
            },
        ensures
            final(self).parameters == old(self).parameters,
            final(self).well_formed(),
            match latest {
                Some(p) => {
                    if p.1.has_board_corners() {
                        &&& final(self).samples@.len() == old(self).samples@.len() + 1
                        &&& final(self).samples@.subrange(0, old(self).samples@.len() as int)
                            == old(self).samples@
                        &&& final(self).samples@.last().corners@ == p.1.board_corners@
                        &&& final(self).samples@.last().ids@ == p.1.board_corner_ids@
                    } else {
                        final(self).samples@ == old(self).samples@
                    }
                },
                None => final(self).samples@ == old(self).samples@,
            },
    {
        match latest {
            None => (),
            Some(pair) => {
                if pair.1.board_corners.len() > 0 {
                    let sample = CalibrationSample {
                        corners: copy_points(&pair.1.board_corners),
                        ids: copy_i32s(&pair.1.board_corner_ids),
                    };
                    let ghost old_samples = self.samples@;
                    self.samples.push(sample);
                    proof {
                        assert(final(self).samples@.subrange(0, old_samples.len() as int)
                            =~= old_samples);
                    }
                }
            },
        }
    }

    /// Discard all samples, whatever state the session is in.  The
    /// stored parameters are never touched.
    pub fn clear(&mut self)
        ensures
            final(self).samples@.len() == 0,
            final(self).parameters == old(self).parameters,
            final(self).well_formed(),
    {
        self.samples.clear();
    }

    /// Build the solver input from the current samples, or fail with
    /// `CalibrationError::NoSamples` when there is nothing to solve
    /// from.  Read-only: neither samples nor stored parameters change.
    pub fn solve_request(&self, board: &BoardGeometry, image_width: u32, image_height: u32)
        -> (r: Result<SolveRequest, CalibrationError>)
        requires
            self.well_formed(),
        ensures
            match r {
                Ok(req) => {
                    &&& self.samples@.len() > 0
                    &&& req.samples@.len() == self.samples@.len()
                    &&& forall|i: int| 0 <= i < req.samples@.len() ==> {
                        &&& (#[trigger] req.samples@[i]).corners@ == self.samples@[i].corners@
                        &&& req.samples@[i].ids@ == self.samples@[i].ids@
                    }
                    &&& req.board == *board
                    &&& req.image_width == image_width
                    &&& req.image_height == image_height
                },
                Err(e) => e == CalibrationError::NoSamples && self.samples@.len() == 0,
            },
            r is Ok <==> self.samples@.len() > 0,
    {
        if self.samples.len() == 0 {
            return Err(CalibrationError::NoSamples);
        }
        let mut samples: Vec<CalibrationSample> = Vec::new();
        let mut i: usize = 0;
        while i < self.samples.len()
            invariant
                i <= self.samples@.len(),
                samples@.len() == i,
                forall|k: int| 0 <= k < i ==> {
                    &&& (#[trigger] samples@[k]).corners@ == self.samples@[k].corners@
                    &&& samples@[k].ids@ == self.samples@[k].ids@
                },
            decreases self.samples@.len() - i,
        {
            let s = &self.samples[i];
            samples.push(CalibrationSample {
                corners: copy_points(&s.corners),
                ids: copy_i32s(&s.ids),
            });
            i = i + 1;
        }
        Ok(SolveRequest {
            samples,
            board: *board,
            image_width,
            image_height,
        })
    }

    /// Record the parameters a successful solve produced.  The sample
    /// set is left as it was: the operator clears it separately.
    pub fn store_parameters(&mut self, parameters: CameraParameter)
        ensures
            final(self).parameters == Some(parameters),
            final(self).samples@ == old(self).samples@,
    {
        self.parameters = Some(parameters);
    }

    /// The document text of the current parameters, to be written to
    /// disk by the caller; fails when no solve has stored parameters
    /// yet.  Read-only.
    pub fn save(&self) -> (r: Result<String, PersistenceError>)
        ensures
            match r {
                Ok(text) => match self.parameters {
                    Some(p) => text@ == spec_serialize_params(params_model(p)),
                    None => false,
                },
                Err(e) => e == PersistenceError::NoParameters && self.parameters is None,
            },
            r is Ok <==> self.parameters is Some,
    {
        match &self.parameters {
            None => Err(PersistenceError::NoParameters),
            Some(p) => {
                let num = p.to_num();
                Ok(serialize_params(&num.camera_matrix, &num.dist_coeffs))
            },
        }
    }

    /// Replace the current parameters with the ones a document text
    /// holds; fails, changing nothing, when the text is not a
    /// well-shaped parameter document.  The samples are never touched.
    pub fn load(&mut self, text: &str) -> (r: Result<(), PersistenceError>)
        ensures
            final(self).samples@ == old(self).samples@,
            match r {
                Ok(()) => match spec_parse_params(text@) {
                    Some(m) => match final(self).parameters {
                        Some(p) => params_model(p) == m,
                        None => false,
                    },
                    None => false,
                },
                Err(e) => {
                    &&& e == PersistenceError::Malformed
                    &&& spec_parse_params(text@) is None
                    &&& final(self).parameters == old(self).parameters
                },
            },
            r is Ok <==> spec_parse_params(text@) is Some,
    {
        match parse_params(text) {
            None => Err(PersistenceError::Malformed),
            Some((mat, dist)) => {
                let num = CameraParameterNum { camera_matrix: mat, dist_coeffs: dist };
                match CameraParameter::from_num(&num) {
                    Some(p) => {
                        self.parameters = Some(p);
                        Ok(())
                    },
                    None => {
                        // The parser only yields the 3x3 + 1x5 shape,
                        // so this arm is provably unreachable.
                        proof {
                            assert(false);
                        }
                        Err(PersistenceError::Malformed)
                    },
                }
            },
        }
    }
}

/// The mathematical content of a parameter set: its entries as bit
/// patterns, in document order.
pub open spec fn params_model(p: CameraParameter) -> ParamsModel {
    ParamsModel { matrix: p.camera_matrix@, dist: p.dist_coeffs@ }
}

/// Round trip at the parameter type itself: the saved text of any
/// parameter set parses back to bit-identical matrix and distortion
/// contents.
pub proof fn lemma_parameter_text_round_trip(p: CameraParameter)
    ensures
        spec_parse_params(spec_serialize_params(params_model(p))) == Some(params_model(p)),
{
    lemma_params_round_trip(params_model(p));
}

} // verus!
