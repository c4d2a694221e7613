//! The command-line options of the player.
use vstd::prelude::*;

use crate::scrapers::Source;

verus! {

/// The options that the player is started with.
#[derive(Debug)]
pub struct Args {
    /// Use an alternate terminal screen.
    pub alternate: bool,
    /// Hide the bottom control bar.
    pub minimalist: bool,
    /// Exclude window borders.
    pub borderless: bool,
    /// Include a clock.
    pub clock: bool,
    /// Start paused.
    pub paused: bool,
    /// Frames per second of the interface.
    pub fps: u8,
    /// Timeout in seconds for music downloads.
    pub timeout: u64,
    /// Include ALSA and other logs.
    pub debug: bool,
    /// Width of the player, from 0 to 32.
    pub width: usize,
    /// The track list to play music from.
    pub track_list: String,
    /// List the track lists instead of playing.
    pub options: bool,
    /// Internal song buffer size.
    pub buffer_size: u32,
    /// The command that was run, if any.
    pub command: Option<Commands>,
}

/// The extra commands of the player.
#[derive(Debug)]
pub enum Commands {
    /// Scrapes a music source for files.
    Scrape {
        /// The source to scrape from.
        source: Source,
    },
}

} // verus!
