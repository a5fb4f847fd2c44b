//! Video sources.
//!
//! A source is one of exactly two kinds: a live capture device or a
//! memory-mapped feed over a still-image file.  The configuration is a
//! closed tagged union, immutable once a source is opened from it, and
//! is what the registry persists so a pipeline can be reopened later.
//!
//! The native side of a source — the capture handle, the mapping, the
//! frame decode — lives outside this crate.  What this module owns is
//! the resource lifecycle: a source is open from construction until
//! `release`, `release` can happen only once, and a released source is
//! never read again.

use vstd::prelude::*;
use crate::errors::FrameReadError;
use crate::mapped::{mapped_bytes, mapped_len};

verus! {

/// Where a pipeline's frames come from.  Exactly two kinds exist; no
/// third-party extension point is needed.
#[derive(Debug)]
pub enum VideoSourceConfig {
    /// A live capture device, addressed by its platform index.
    DeviceCapture { index: i32 },
    /// A memory-mapped feed backed by a still-image file at `path`.
    MemoryMappedFeed { path: String },
}

impl Clone for VideoSourceConfig {
    fn clone(&self) -> (r: Self)
        ensures
            r == *self,
    {
        match self {
            VideoSourceConfig::DeviceCapture { index } => {
                VideoSourceConfig::DeviceCapture { index: *index }
            },
            VideoSourceConfig::MemoryMappedFeed { path } => {
                VideoSourceConfig::MemoryMappedFeed { path: path.clone() }
            },
        }
    }
}

/// One opened frame-producing source: its immutable configuration,
/// the file mapping when it is a memory-mapped feed, and the state of
/// the underlying native resource.  A device's capture handle lives
/// with the native capture loop; the mapping lives here, and dropping
/// it unmaps the region.
pub struct VideoSource {
    pub config: VideoSourceConfig,
    pub map: Option<memmap2::Mmap>,
    pub released: bool,
}

impl VideoSource {
    /// A source may be read only while it has not been released.
    pub open spec fn is_open(&self) -> bool {
        !self.released
    }

    /// Record a freshly opened source with no mapping of its own: a
    /// capture device, or a stand-in without a native resource.  The
    /// native acquisition happens beside this call; when that fails,
    /// no `VideoSource` comes into being and the caller surfaces a
    /// `SourceOpenError` instead.
    pub fn open(config: VideoSourceConfig) -> (r: VideoSource)
        ensures
            r.config == config,
            r.map is None,
            r.is_open(),
    {
        VideoSource { config, map: None, released: false }
    }

    /// Record a freshly opened memory-mapped feed over `path`, owning
    /// the mapping the caller created for that path.
    pub fn open_mapped(path: String, map: memmap2::Mmap) -> (r: VideoSource)
        ensures
            r.config == (VideoSourceConfig::MemoryMappedFeed { path }),
            r.map == Some(map),
            r.is_open(),
    {
        VideoSource {
            config: VideoSourceConfig::MemoryMappedFeed { path },
            map: Some(map),
            released: false,
        }
    }

    /// The current bytes of the mapped region, for the decode step
    /// that turns them into a frame.  Fails on a released source and
    /// on a source that owns no mapping; never blocks on anything but
    /// the region itself.
    pub fn read_mapped(&self) -> (r: Result<Vec<u8>, FrameReadError>)
        ensures
            match r {
                Ok(b) => {
                    &&& self.is_open()
                    &&& self.map matches Some(m) && b@.len() == mapped_len(m)
                },
                Err(e) => e == FrameReadError::EndOfStream
                    && (!self.is_open() || self.map is None),
            },
            r is Ok <==> (self.is_open() && self.map is Some),
    {
        if self.released {
            return Err(FrameReadError::EndOfStream);
        }
        match &self.map {
            Some(m) => Ok(mapped_bytes(m)),
            None => Err(FrameReadError::EndOfStream),
        }
    }

    /// Release the underlying resource: drop the mapping, if any, so
    /// the region is unmapped, and mark the source released.  Callable
    /// exactly once: a released source cannot be released again, so
    /// the native resource is given back exactly once, on every exit
    /// path that goes through the registry.
    pub fn release(&mut self)
        requires
            old(self).is_open(),
        ensures
            final(self).released,
            !final(self).is_open(),
            final(self).map is None,
            final(self).config == old(self).config,
    {
        self.map = None;
        self.released = true;
    }

    /// Whether `release` has run.
    pub fn is_released(&self) -> (b: bool)
        ensures
            b == self.released,
    {
        self.released
    }
}

} // verus!
