//! The messages that drive the player.
use vstd::prelude::*;

verus! {

/// A request to the player, from the interface, the media controls or the
/// player's own tasks. Volumes are in hundredths of full volume.
#[derive(PartialEq, Eq, Structural, Debug, Clone, Copy)]
pub enum Message {
    /// Go to the next track, at the user's request.
    Next,
    /// The playing track has ended.
    End,
    /// A track finished downloading after the player was told to wait.
    Loaded,
    /// Like `Next`, for the first track.
    Init,
    /// Resume playback.
    Play,
    /// Pause playback.
    Pause,
    /// Pause when playing, resume when paused.
    PlayPause,
    /// Change the volume by this many hundredths.
    ChangeVolume(i32),
    /// Set the volume to this many hundredths.
    SetVolume(u32),
    /// Bookmark the current track, or remove its bookmark.
    Bookmark,
    /// Quit gracefully.
    Quit,
}

} // verus!
