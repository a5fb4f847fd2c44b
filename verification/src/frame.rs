//! Owned, immutable RGB frames.
//!
//! Every source kind normalizes its output to the same tightly packed
//! RGB layout, so downstream stages never branch on where a frame came
//! from.  A frame is never mutated after construction; readers that need
//! their own copy take one with [`Frame::duplicate`].

use vstd::prelude::*;
use crate::errors::FrameReadError;

verus! {

/// An owned RGB pixel buffer: `data` holds `width * height` pixels of
/// three bytes each, row-major.
pub struct Frame {
    pub width: usize,
    pub height: usize,
    pub data: Vec<u8>,
}

impl Frame {
    /// A frame is well formed when both dimensions are positive and the
    /// buffer holds exactly three bytes per pixel.
    pub open spec fn well_formed(&self) -> bool {
        &&& self.width > 0
        &&& self.height > 0
        &&& self.data@.len() == self.width * self.height * 3
    }

    /// Build a frame from raw RGB bytes, rejecting a zero-size capture
    /// and a buffer whose length does not match the dimensions.
    pub fn from_rgb(width: usize, height: usize, data: Vec<u8>) -> (r: Result<Frame, FrameReadError>)
        ensures
            match r {
                Ok(f) => {
                    &&& width > 0 && height > 0
                    &&& data@.len() == width * height * 3
                    &&& f.width == width && f.height == height && f.data@ == data@
                    &&& f.well_formed()
                },
                Err(FrameReadError::EmptyFrame) => width == 0 || height == 0,
                Err(FrameReadError::DecodeFailure) => {
                    &&& width > 0 && height > 0
                    &&& data@.len() != width * height * 3
                },
                Err(_) => false,
            },
    {
        if width == 0 || height == 0 {
            return Err(FrameReadError::EmptyFrame);
        }
        if data.len() % 3 != 0 {
            proof {
                assert(data@.len() != width * height * 3) by (nonlinear_arith)
                    requires
                        data@.len() % 3 != 0,
                ;
            }
            return Err(FrameReadError::DecodeFailure);
        }
        let pixels: u128 = (data.len() / 3) as u128;
        proof {
            assert((width as u128) * (height as u128) < 0x100000000000000000000000000000000)
                by (nonlinear_arith)
                requires
                    width <= 0xffffffffffffffffu64,
                    height <= 0xffffffffffffffffu64,
            ;
        }
        let expected: u128 = (width as u128) * (height as u128);
        if pixels != expected {
            proof {
                assert(data@.len() != width * height * 3) by (nonlinear_arith)
                    requires
                        data@.len() % 3 == 0,
                        data@.len() / 3 != width * height,
                ;
            }
            return Err(FrameReadError::DecodeFailure);
        }
        proof {
            assert(data@.len() == width * height * 3) by (nonlinear_arith)
                requires
                    data@.len() % 3 == 0,
                    data@.len() / 3 == width * height,
            ;
        }
        Ok(Frame { width, height, data })
    }

    /// An independently owned copy of this frame.
    pub fn duplicate(&self) -> (r: Frame)
        ensures
            r.width == self.width,
            r.height == self.height,
            r.data@ == self.data@,
    {
        let mut data: Vec<u8> = Vec::new();
        let mut i: usize = 0;
        while i < self.data.len()
            invariant
                i <= self.data@.len(),
                data@ == self.data@.subrange(0, i as int),
            decreases self.data@.len() - i,
        {
            data.push(self.data[i]);
            i = i + 1;
        }
        proof {
            assert(data@ =~= self.data@);
        }
        Frame { width: self.width, height: self.height, data }
    }
}

} // verus!
