//! The downloader's handles: the global download progress and what the
//! downloader hands out when a track is asked for.
use vstd::prelude::*;

use crate::tracks::Queued;

verus! {

/// A handle to the global download progress, which the downloader updates
/// and the interface reads while no queued track is available. Every handle
/// stands for the same, single progress value.
#[derive(Clone, Copy, Debug)]
pub struct Progress;

impl Progress {
    /// Creates a new handle to the global progress.
    pub fn new() -> Self {
        Progress
    }
}

/// What the downloader gives when a track is asked for.
pub enum Output {
    /// No track was ready; the progress handle, when present, shows how far
    /// the current download is.
    Loading(Option<Progress>),
    /// A downloaded, not yet decoded track.
    Queued(Queued),
}

/// The new count of downloaded bytes after a chunk of `chunk` bytes, at most
/// the announced `total`.
pub fn advance(downloaded: u64, chunk: u64, total: u64) -> (r: u64)
    requires
        downloaded + chunk <= u64::MAX,
    ensures
        r == if downloaded + chunk <= total {
            downloaded + chunk
        } else {
            total as int
        },
{
    let sum = downloaded + chunk;
    if sum <= total {
        sum
    } else {
        total
    }
}

/// The capacity of the download queue for a buffer of `size` tracks: one
/// track is always held outside the queue.
pub fn queue_capacity(size: usize) -> (r: usize)
    requires
        size >= 2,
    ensures
        r == size - 1,
{
    size - 1
}

} // verus!
