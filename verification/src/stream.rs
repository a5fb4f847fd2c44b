//! Per-camera frame stream.
//!
//! A stream owns one video source and the single-slot broadcast through
//! which the capture loop publishes each successfully read frame.  The
//! loop itself — read, decode, retry on failure — runs beside this
//! crate; every frame it reads lands here through `publish_frame`, and
//! any number of readers poll `latest` without ever blocking.  A read
//! failure publishes nothing: the previous frame stays on offer.

use vstd::prelude::*;
use crate::frame::Frame;
use crate::slot::Latest;
use crate::source::{VideoSource, VideoSourceConfig};

verus! {

/// One camera's stream: its name, the configuration it was opened
/// from, the source itself, and the latest-frame broadcast slot.
pub struct CameraStream {
    pub name: String,
    pub video_source_config: VideoSourceConfig,
    pub source: VideoSource,
    pub frames: Latest<Frame>,
}

impl CameraStream {
    /// A fresh stream over an open source: nothing published yet, and
    /// the stored configuration is the one the source was opened from.
    pub fn new(name: String, source: VideoSource) -> (r: CameraStream)
        requires
            source.is_open(),
        ensures
            r.name == name,
            r.video_source_config == source.config,
            r.source == source,
            r.frames.current() is None,
    {
        let video_source_config = source.config.clone();
        CameraStream { name, video_source_config, source, frames: Latest::empty() }
    }

    /// Publish one freshly read frame, overwriting whatever frame was
    /// on offer before.  Never blocks.
    pub fn publish_frame(&mut self, frame: Frame)
        ensures
            final(self).frames.current() == Some(frame),
            final(self).name == old(self).name,
            final(self).video_source_config == old(self).video_source_config,
            final(self).source == old(self).source,
    {
        self.frames.publish(frame);
    }

    /// The most recently published frame, or `None` if the capture
    /// loop has not published yet.  Never blocks, never panics.
    pub fn latest(&self) -> (r: Option<&Frame>)
        ensures
            match r {
                Some(f) => self.frames.current() == Some(*f),
                None => self.frames.current() is None,
            },
    {
        self.frames.latest()
    }
}

} // verus!
