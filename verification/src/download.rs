//! The downloader as the player sees it: a progress handle and the output of
//! a request for a track.
pub use crate::downloader::{Output, Progress};
