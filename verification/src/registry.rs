//! The pipeline registry.
//!
//! An ordered collection of per-camera pipelines — stream, detector and
//! calibration session — one per active camera.  The registry is the
//! unit of persistence (its `list` output is what gets serialized) and
//! the owner of each pipeline's lifecycle: removal releases the
//! pipeline's video source exactly once, and an out-of-range removal
//! fails without touching anything.

use vstd::prelude::*;
use crate::calib::CalibrationSession;
use crate::detect::{BoardGeometry, MarkerDetector};
use crate::errors::IndexError;
use crate::source::{VideoSource, VideoSourceConfig};
use crate::stream::CameraStream;

verus! {

/// One camera's full pipeline: the frame stream, the detection stage
/// and the calibration session.
pub struct Pipeline {
    pub stream: CameraStream,
    pub detector: MarkerDetector,
    pub session: CalibrationSession,
}

impl Pipeline {
    /// Structural health of a pipeline: its detector never offers a
    /// malformed result and its session holds only well-formed samples.
    pub open spec fn well_formed(&self) -> bool {
        &&& self.detector.well_formed()
        &&& self.session.well_formed()
    }

    /// A fresh pipeline over an open source: empty broadcast slots, an
    /// idle session, and the given board geometry.
    pub fn new(name: String, source: VideoSource, board: BoardGeometry) -> (r: Pipeline)
        requires
            source.is_open(),
        ensures
            r.stream.name == name,
            r.stream.video_source_config == source.config,
            r.stream.source == source,
            r.stream.frames.current() is None,
            r.detector.board == board,
            r.detector.output.current() is None,
            r.session.samples@.len() == 0,
            r.session.parameters is None,
            r.well_formed(),
    {
        Pipeline {
            stream: CameraStream::new(name, source),
            detector: MarkerDetector::new(board),
            session: CalibrationSession::new(),
        }
    }

    /// Capture a calibration sample from the detection pair currently
    /// on offer; a no-op when nothing is on offer or the current
    /// result holds no board corners.
    pub fn capture(&mut self)
        requires
            old(self).well_formed(),
        ensures
            final(self).stream == old(self).stream,
            final(self).detector == old(self).detector,
            final(self).session.parameters == old(self).session.parameters,
            final(self).well_formed(),
            match old(self).detector.output.current() {
                Some(p) => {
                    if p.1.has_board_corners() {
                        &&& final(self).session.samples@.len()
                            == old(self).session.samples@.len() + 1
                        &&& final(self).session.samples@.subrange(
                            0, old(self).session.samples@.len() as int)
                            == old(self).session.samples@
                        &&& final(self).session.samples@.last().corners@ == p.1.board_corners@
                        &&& final(self).session.samples@.last().ids@ == p.1.board_corner_ids@
                    } else {
                        final(self).session.samples@ == old(self).session.samples@
                    }
                },
                None => final(self).session.samples@ == old(self).session.samples@,
            },
    {
        let latest = self.detector.output.latest();
        self.session.capture(latest);
    }
}

/// How a pipeline handed back by `remove` relates to the entry that
/// stood in the registry: identical in every part, except that its
/// source has now been released.
pub open spec fn released_from(removed: Pipeline, entry: Pipeline) -> bool {
    &&& removed.stream.name == entry.stream.name
    &&& removed.stream.video_source_config == entry.stream.video_source_config
    &&& removed.stream.source.config == entry.stream.source.config
    &&& removed.stream.source.released
    &&& removed.stream.source.map is None
    &&& removed.stream.frames == entry.stream.frames
    &&& removed.detector == entry.detector
    &&& removed.session == entry.session
}

/// The ordered set of active pipelines.
pub struct PipelineRegistry {
    pub pipelines: Vec<Pipeline>,
}

impl PipelineRegistry {
    /// Every registered pipeline is well formed and its source is
    /// still open: release happens exactly at removal, never before.
    pub open spec fn well_formed(&self) -> bool {
        forall|i: int| 0 <= i < self.pipelines@.len() ==> {
            &&& (#[trigger] self.pipelines@[i]).well_formed()
            &&& self.pipelines@[i].stream.source.is_open()
        }
    }

    /// An empty registry.
    pub fn new() -> (r: PipelineRegistry)
        ensures
            r.pipelines@.len() == 0,
            r.well_formed(),
    {
        PipelineRegistry { pipelines: Vec::new() }
    }

    /// Number of active pipelines.
    pub fn len(&self) -> (n: usize)
        ensures
            n == self.pipelines@.len(),
    {
        self.pipelines.len()
    }

    /// Append a fresh pipeline over an open source and hand back its
    /// index.  Existing pipelines are untouched.
    pub fn add(&mut self, name: String, source: VideoSource, board: BoardGeometry)
        -> (i: usize)
        requires
            old(self).well_formed(),
            source.is_open(),
        ensures
            i == old(self).pipelines@.len(),
            final(self).pipelines@.len() == old(self).pipelines@.len() + 1,
            final(self).pipelines@.subrange(0, i as int) == old(self).pipelines@,
            final(self).pipelines@.last().stream.name == name,
            final(self).pipelines@.last().stream.video_source_config == source.config,
            final(self).pipelines@.last().stream.source == source,
            final(self).pipelines@.last().stream.frames.current() is None,
            final(self).pipelines@.last().detector.board == board,
            final(self).pipelines@.last().detector.output.current() is None,
            final(self).pipelines@.last().session.samples@.len() == 0,
            final(self).pipelines@.last().session.parameters is None,
            final(self).well_formed(),
    {
        let i = self.pipelines.len();
        let pipeline = Pipeline::new(name, source, board);
        let ghost old_seq = self.pipelines@;
        self.pipelines.push(pipeline);
        proof {
            assert(final(self).pipelines@.subrange(0, i as int) =~= old_seq);
        }
        i
    }

    /// Remove the pipeline at `index`, releasing its video source
    /// exactly once, and hand the released pipeline back so the native
    /// side can stop its loops and drop its handles.  An out-of-range
    /// index fails with `IndexError` and leaves the registry unchanged.
    /// Never panics.
    pub fn remove(&mut self, index: usize) -> (r: Result<Pipeline, IndexError>)
        requires
            old(self).well_formed(),
        ensures
            final(self).well_formed(),
            match r {
                Ok(p) => {
                    &&& index < old(self).pipelines@.len()
                    &&& final(self).pipelines@ == old(self).pipelines@.remove(index as int)
                    &&& released_from(p, old(self).pipelines@[index as int])
                },
                Err(e) => {
                    &&& e == IndexError::OutOfRange
                    &&& index >= old(self).pipelines@.len()
                    &&& final(self).pipelines@ == old(self).pipelines@
                },
            },
            r is Ok <==> index < old(self).pipelines@.len(),
    {
        if index >= self.pipelines.len() {
            return Err(IndexError::OutOfRange);
        }
        let mut removed = self.pipelines.remove(index);
        removed.stream.source.release();
        Ok(removed)
    }

    /// The persistable view of the registry: each pipeline's name and
    /// source configuration, in registry order, and nothing else — no
    /// samples, no frames, no runtime state.
    pub fn list(&self) -> (r: Vec<(String, VideoSourceConfig)>)
        ensures
            r@.len() == self.pipelines@.len(),
            forall|i: int| 0 <= i < r@.len() ==> {
                &&& (#[trigger] r@[i]).0 == self.pipelines@[i].stream.name
                &&& r@[i].1 == self.pipelines@[i].stream.video_source_config
            },
    {
        let mut r: Vec<(String, VideoSourceConfig)> = Vec::new();
        let mut i: usize = 0;
        while i < self.pipelines.len()
            invariant
                i <= self.pipelines@.len(),
                r@.len() == i,
                forall|k: int| 0 <= k < i ==> {
                    &&& (#[trigger] r@[k]).0 == self.pipelines@[k].stream.name
                    &&& r@[k].1 == self.pipelines@[k].stream.video_source_config
                },
            decreases self.pipelines@.len() - i,
        {
            let entry = &self.pipelines[i];
            r.push((entry.stream.name.clone(), entry.stream.video_source_config.clone()));
            i = i + 1;
        }
        r
    }
}

} // verus!
